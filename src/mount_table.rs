use vstd::prelude::*;

use crate::text::{
    chars_of, find, find_char_from, find_sub, first_index, lines, slice, split_lines, split_words,
    string_of, trim, trim_chars, views, words,
};

verus! {

/// One bind mount of the mount table: where it comes from and where it is attached.
#[derive(Debug, PartialEq, Eq)]
pub struct MountEntry {
    pub source: String,
    pub target: String,
}

/// The `(source, target)` pairs of a list of entries.
pub open spec fn entry_views(es: Seq<MountEntry>) -> Seq<(Seq<char>, Seq<char>)> {
    es.map_values(|e: MountEntry| (e.source@, e.target@))
}

/// Whether the byte `b` is an octal digit.
pub open spec fn is_octal(b: u8) -> bool {
    48 <= b && b <= 55
}

/// The value of the escape `\abc` whose digits follow the backslash at the start of `s`.
pub open spec fn escape_value(s: Seq<u8>) -> int {
    (s[1] - 48) * 64 + (s[2] - 48) * 8 + (s[3] - 48)
}

/// Whether `s` opens with an escape `\ooo` that stands for a byte (at most `\377`).
pub open spec fn opens_escape(s: Seq<u8>) -> bool {
    s.len() >= 4 && s[0] == 92 && is_octal(s[1]) && is_octal(s[2]) && is_octal(s[3])
        && escape_value(s) < 256
}

/// The bytes `s` with each escape `\ooo` replaced by the byte it stands for.
pub open spec fn unescaped(s: Seq<u8>) -> Seq<u8>
    decreases s.len(),
{
    if s.len() == 0 {
        Seq::empty()
    } else if opens_escape(s) {
        seq![escape_value(s) as u8] + unescaped(s.subrange(4, s.len() as int))
    } else {
        seq![s[0]] + unescaped(s.subrange(1, s.len() as int))
    }
}

/// The text of the bytes `b`, each invalid UTF-8 sequence shown as U+FFFD.
pub uninterp spec fn lossy_of(b: Seq<u8>) -> Seq<char>;

/// Relies on `String::from_utf8_lossy`: valid UTF-8 is decoded as it is, and anything
/// else becomes replacement characters.
#[verifier::external_body]
fn utf8_lossy(b: &Vec<u8>) -> (r: String)
    ensures
        r@ == lossy_of(b@),
        vstd::utf8::valid_utf8(b@) ==> r@ == vstd::utf8::decode_utf8(b@),
{
    String::from_utf8_lossy(b).into_owned()
}

/// A field of the kernel's mount table with its escapes decoded.
pub open spec fn decoded_field(field: Seq<char>) -> Seq<char> {
    lossy_of(unescaped(vstd::utf8::encode_utf8(field)))
}

/// Decode the octal escapes of a field of the kernel's mount table (`\040` is a space):
/// each `\ooo` up to `\377` becomes the byte it stands for, and the bytes are read as
/// UTF-8.
pub fn unescape_proc_field(field: &str) -> (r: String)
    ensures
        r@ == decoded_field(field@),
{
    let s = field.as_bytes();
    let ghost bytes = vstd::utf8::encode_utf8(field@);
    let n = s.len();
    let mut out: Vec<u8> = Vec::new();
    let mut i: usize = 0;
    proof {
        assert(s@.subrange(0, n as int) =~= s@);
        assert(out@ + unescaped(s@) =~= unescaped(s@));
    }
    while i < n
        invariant
            i <= n == s@.len(),
            s@ == bytes,
            out@ + unescaped(s@.subrange(i as int, n as int)) == unescaped(bytes),
        decreases n - i,
    {
        let ghost t = s@.subrange(i as int, n as int);
        let ghost before = out@;
        if n - i >= 4 && s[i] == 92 && 48 <= s[i + 1] && s[i + 1] <= 55 && 48 <= s[i + 2]
            && s[i + 2] <= 55 && 48 <= s[i + 3] && s[i + 3] <= 55 {
            let v: u32 = ((s[i + 1] - 48) as u32) * 64 + ((s[i + 2] - 48) as u32) * 8 + ((s[i
                + 3] - 48) as u32);
            if v < 256 {
                out.push(v as u8);
                proof {
                    assert(opens_escape(t));
                    assert(t.subrange(4, t.len() as int) =~= s@.subrange(i + 4, n as int));
                    assert(out@ + unescaped(s@.subrange(i + 4, n as int)) =~= before + unescaped(t));
                }
                i = i + 4;
                continue;
            }
        }
        out.push(s[i]);
        proof {
            assert(!opens_escape(t));
            assert(t.subrange(1, t.len() as int) =~= s@.subrange(i + 1, n as int));
            assert(out@ + unescaped(s@.subrange(i + 1, n as int)) =~= before + unescaped(t));
        }
        i = i + 1;
    }
    proof {
        assert(s@.subrange(n as int, n as int) =~= Seq::<u8>::empty());
        assert(out@ + Seq::<u8>::empty() =~= out@);
    }
    utf8_lossy(&out)
}

/// Whether a file system type of the kernel's table is one that bind mounts show:
/// `fuse.bindfs`, or plain `fuse` for a mount whose process died.
pub open spec fn is_bind_fstype(t: Seq<char>) -> bool {
    t == "fuse.bindfs"@ || t == "fuse"@
}

/// The entry that one line of the kernel's mount table describes, if it is a bind mount.
pub open spec fn proc_line_entry(line: Seq<char>) -> Option<(Seq<char>, Seq<char>)> {
    let ws = words(line);
    if ws.len() >= 3 && is_bind_fstype(ws[2]) {
        Some((decoded_field(ws[0]), decoded_field(ws[1])))
    } else {
        None
    }
}

/// The entries that the lines `ls` give, each line read by `f`, in order.
pub open spec fn collect_entries(
    ls: Seq<Seq<char>>,
    f: spec_fn(Seq<char>) -> Option<(Seq<char>, Seq<char>)>,
) -> Seq<(Seq<char>, Seq<char>)>
    decreases ls.len(),
{
    if ls.len() == 0 {
        Seq::empty()
    } else {
        let prev = collect_entries(ls.drop_last(), f);
        match f(ls.last()) {
            Some(e) => prev.push(e),
            None => prev,
        }
    }
}

/// The bind mounts listed in the text of the kernel's mount table.
pub open spec fn proc_entries(text: Seq<char>) -> Seq<(Seq<char>, Seq<char>)> {
    collect_entries(lines(text), |l: Seq<char>| proc_line_entry(l))
}

/// Whether two character vectors hold the same characters.
pub fn same_chars(a: &Vec<char>, b: &Vec<char>) -> (r: bool)
    ensures
        r == (a@ == b@),
{
    if a.len() != b.len() {
        return false;
    }
    let mut i: usize = 0;
    while i < a.len()
        invariant
            i <= a@.len() == b@.len(),
            forall|k: int| 0 <= k < i ==> a@[k] == b@[k],
        decreases a@.len() - i,
    {
        if a[i] != b[i] {
            return false;
        }
        i = i + 1;
    }
    assert(a@ =~= b@);
    true
}

/// Parse the text of the kernel's mount table and keep its bind mounts.
///
/// A line reads `<source> <target> <fstype> <options> <dump> <pass>`; `fuse.bindfs` and
/// plain `fuse` entries are kept, with their paths' octal escapes decoded.
pub fn parse_proc_mounts(text: &str) -> (r: Vec<MountEntry>)
    ensures
        entry_views(r@) == proc_entries(text@),
{
    let cs = chars_of(text);
    let ls = split_lines(&cs);
    let bindfs = chars_of("fuse.bindfs");
    let fuse = chars_of("fuse");
    let mut r: Vec<MountEntry> = Vec::new();
    let mut i: usize = 0;
    let ghost f = |l: Seq<char>| proc_line_entry(l);
    while i < ls.len()
        invariant
            i <= ls@.len(),
            views(ls@) == lines(text@),
            bindfs@ == "fuse.bindfs"@,
            fuse@ == "fuse"@,
            f == (|l: Seq<char>| proc_line_entry(l)),
            entry_views(r@) == collect_entries(views(ls@).subrange(0, i as int), f),
        decreases ls@.len() - i,
    {
        let ghost lsv = views(ls@);
        proof {
            assert(lsv.subrange(0, i + 1).drop_last() =~= lsv.subrange(0, i as int));
            assert(lsv.subrange(0, i + 1).last() == ls@[i as int]@);
        }
        let ws = split_words(&ls[i]);
        if ws.len() >= 3 && (same_chars(&ws[2], &bindfs) || same_chars(&ws[2], &fuse)) {
            let src = unescape_proc_field(string_of(&ws[0]).as_str());
            let tgt = unescape_proc_field(string_of(&ws[1]).as_str());
            proof {
                assert(views(ws@)[0] == ws@[0]@);
                assert(views(ws@)[1] == ws@[1]@);
                assert(views(ws@)[2] == ws@[2]@);
            }
            let ghost before = entry_views(r@);
            r.push(MountEntry { source: src, target: tgt });
            proof {
                assert(entry_views(r@) =~= before.push((src@, tgt@)));
            }
        } else {
            proof {
                if ws@.len() >= 3 {
                    assert(views(ws@)[2] == ws@[2]@);
                }
            }
        }
        i = i + 1;
    }
    proof {
        assert(views(ls@).subrange(0, i as int) =~= views(ls@));
    }
    r
}

/// The entry that one line of `mount` output describes, if it is a bind mount.
///
/// A line reads `<source> on <target> (<fstype>, <options>...)`.
pub open spec fn mount_line_entry(line: Seq<char>) -> Option<(Seq<char>, Seq<char>)> {
    match find_sub(line, " on "@) {
        None => None,
        Some(i) => {
            let source = line.subrange(0, i);
            let rest = line.subrange(i + 4, line.len() as int);
            match find_sub(rest, " ("@) {
                None => None,
                Some(j) => {
                    let target = rest.subrange(0, j);
                    match first_index(rest, '(') {
                        None => None,
                        Some(k) => {
                            let opts = rest.subrange(k + 1, rest.len() as int);
                            let fstype = trim(crate::text::before_char(opts, ','));
                            if fstype == "bindfs"@ {
                                Some((trim(source), trim(target)))
                            } else {
                                None
                            }
                        },
                    }
                },
            }
        },
    }
}

/// The bind mounts listed in the output of the `mount` command.
pub open spec fn mount_output_entries(text: Seq<char>) -> Seq<(Seq<char>, Seq<char>)> {
    collect_entries(lines(text), |l: Seq<char>| mount_line_entry(l))
}

/// The entry that one line of `mount` output describes, as `mount_line_entry` states it.
fn parse_mount_line(line: &Vec<char>) -> (r: Option<MountEntry>)
    ensures
        match r {
            Some(e) => mount_line_entry(line@) == Some((e.source@, e.target@)),
            None => mount_line_entry(line@) is None,
        },
{
    let on = chars_of(" on ");
    let paren = chars_of(" (");
    let bindfs = chars_of("bindfs");
    proof {
        reveal_strlit(" on ");
        reveal_strlit(" (");
    }
    let n = line.len();
    let i = match find(line, &on) {
        Some(i) => i,
        None => {
            return None;
        },
    };
    proof {
        crate::text::lemma_find_sub_valid(line@, on@);
    }
    let rest = slice(line, i + 4, n);
    let j = match find(&rest, &paren) {
        Some(j) => j,
        None => {
            return None;
        },
    };
    proof {
        crate::text::lemma_find_sub_valid(rest@, paren@);
    }
    let k = match find_char_from(&rest, '(', 0) {
        Some(k) => k,
        None => {
            proof {
                assert(rest@.subrange(0, rest@.len() as int) =~= rest@);
            }
            return None;
        },
    };
    proof {
        assert(rest@.subrange(0, rest@.len() as int) =~= rest@);
    }
    let opts = slice(&rest, k + 1, rest.len());
    let first = match find_char_from(&opts, ',', 0) {
        Some(c) => {
            proof {
                assert(opts@.subrange(0, opts@.len() as int) =~= opts@);
            }
            slice(&opts, 0, c)
        },
        None => {
            proof {
                assert(opts@.subrange(0, opts@.len() as int) =~= opts@);
            }
            slice(&opts, 0, opts.len())
        },
    };
    proof {
        assert(opts@.subrange(0, opts@.len() as int) =~= opts@);
    }
    let fstype = trim_chars(&first);
    if !same_chars(&fstype, &bindfs) {
        return None;
    }
    let source = trim_chars(&slice(line, 0, i));
    let target = trim_chars(&slice(&rest, 0, j));
    Some(MountEntry { source: string_of(&source), target: string_of(&target) })
}

/// Parse the output of the `mount` command and keep its `bindfs` entries.
pub fn parse_mount_output(text: &str) -> (r: Vec<MountEntry>)
    ensures
        entry_views(r@) == mount_output_entries(text@),
{
    let cs = chars_of(text);
    let ls = split_lines(&cs);
    let mut r: Vec<MountEntry> = Vec::new();
    let mut i: usize = 0;
    let ghost f = |l: Seq<char>| mount_line_entry(l);
    while i < ls.len()
        invariant
            i <= ls@.len(),
            views(ls@) == lines(text@),
            f == (|l: Seq<char>| mount_line_entry(l)),
            entry_views(r@) == collect_entries(views(ls@).subrange(0, i as int), f),
        decreases ls@.len() - i,
    {
        let ghost lsv = views(ls@);
        proof {
            assert(lsv.subrange(0, i + 1).drop_last() =~= lsv.subrange(0, i as int));
            assert(lsv.subrange(0, i + 1).last() == ls@[i as int]@);
        }
        match parse_mount_line(&ls[i]) {
            Some(e) => {
                let ghost before = entry_views(r@);
                r.push(e);
                proof {
                    assert(entry_views(r@) =~= before.push((e.source@, e.target@)));
                }
            },
            None => {},
        }
        i = i + 1;
    }
    proof {
        assert(views(ls@).subrange(0, i as int) =~= views(ls@));
    }
    r
}

/// The source of the first entry attached at `target`, if any.
pub open spec fn source_at(es: Seq<(Seq<char>, Seq<char>)>, target: Seq<char>) -> Option<
    Seq<char>,
>
    decreases es.len(),
{
    if es.len() == 0 {
        None
    } else if es[0].1 == target {
        Some(es[0].0)
    } else {
        source_at(es.subrange(1, es.len() as int), target)
    }
}

/// The source path of the mount attached at `target`, if the table lists one.
pub fn find_mount_source<'a>(entries: &'a [MountEntry], target: &str) -> (r: Option<&'a str>)
    ensures
        match r {
            Some(s) => source_at(entry_views(entries@), target@) == Some(s@),
            None => source_at(entry_views(entries@), target@) is None,
        },
{
    let t = chars_of(target);
    let mut i: usize = 0;
    let ghost all = entry_views(entries@);
    proof {
        assert(all.subrange(0, all.len() as int) =~= all);
    }
    while i < entries.len()
        invariant
            i <= entries@.len() == all.len(),
            all == entry_views(entries@),
            t@ == target@,
            source_at(all, target@) == source_at(all.subrange(i as int, all.len() as int), target@),
        decreases entries@.len() - i,
    {
        let ghost rest = all.subrange(i as int, all.len() as int);
        proof {
            assert(rest.subrange(1, rest.len() as int) =~= all.subrange(i + 1, all.len() as int));
            assert(rest[0] == all[i as int]);
        }
        let e = &entries[i];
        let et = chars_of(e.target.as_str());
        if same_chars(&et, &t) {
            return Some(e.source.as_str());
        }
        i = i + 1;
    }
    None
}

} // verus!
