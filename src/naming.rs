use vstd::prelude::*;

use crate::text::{chars_of, has_prefix, push_all, push_str, string_of};

verus! {

/// The SHA-256 digest of `data`.
pub uninterp spec fn sha256_of(data: Seq<u8>) -> Seq<u8>;

/// Relies on sha2's `Sha256::digest`: the SHA-256 digest of the input, 32 bytes long.
#[verifier::external_body]
fn sha256(data: &[u8]) -> (r: Vec<u8>)
    ensures
        r@ == sha256_of(data@),
        r@.len() == 32,
{
    <sha2::Sha256 as sha2::Digest>::digest(data).to_vec()
}

/// Whether `c` is an ASCII letter or digit.
pub open spec fn is_ascii_alnum(c: char) -> bool {
    ('a' <= c && c <= 'z') || ('A' <= c && c <= 'Z') || ('0' <= c && c <= '9')
}

/// Whether `c` is a digit or a lowercase letter of hexadecimal.
pub open spec fn is_lower_hex(c: char) -> bool {
    ('0' <= c && c <= '9') || ('a' <= c && c <= 'f')
}

/// The longest a sanitized name can be.
pub const MAX_NAME_LEN: usize = 30;

/// Whether the byte `b` is an ASCII letter or digit.
pub open spec fn is_alnum_byte(b: u8) -> bool {
    (97 <= b && b <= 122) || (65 <= b && b <= 90) || (48 <= b && b <= 57)
}

/// One character of a sanitized name: an ASCII letter or digit byte as itself, any other
/// byte as `-`.
pub open spec fn sanitize_byte(b: u8) -> char {
    if is_alnum_byte(b) {
        b as char
    } else {
        '-'
    }
}

/// The UTF-8 bytes of `name`, each byte other than an ASCII letter or digit made `-`,
/// cut to the first 30.
pub open spec fn sanitized(name: Seq<char>) -> Seq<char> {
    let bytes = vstd::utf8::encode_utf8(name);
    let n = if bytes.len() <= MAX_NAME_LEN {
        bytes.len() as int
    } else {
        MAX_NAME_LEN as int
    };
    bytes.subrange(0, n).map_values(|b: u8| sanitize_byte(b))
}

/// The lowercase hexadecimal digit for `n`, which is below 16.
pub open spec fn hex_char(n: u8) -> char {
    if n < 10 {
        (n + 48) as char
    } else {
        (n + 87) as char
    }
}

/// The first eight hexadecimal digits of `digest`, two for each of its first four bytes.
pub open spec fn hex8(digest: Seq<u8>) -> Seq<char> {
    Seq::new(
        8,
        |i: int|
            if i % 2 == 0 {
                hex_char(digest[i / 2] / 16)
            } else {
                hex_char(digest[i / 2] % 16)
            },
    )
}

/// The hash part of the mount name of the path `p`.
pub open spec fn path_hash(p: Seq<char>) -> Seq<char> {
    hex8(sha256_of(vstd::utf8::encode_utf8(p)))
}

/// The final component of a canonical path: what follows its last `/`.
pub open spec fn last_component(p: Seq<char>) -> Seq<char>
    decreases p.len(),
{
    if p.len() == 0 {
        p
    } else if p.last() == '/' {
        Seq::empty()
    } else {
        last_component(p.drop_last()).push(p.last())
    }
}

/// The mount name of the path `p`: `dcx-<sanitized last component>-<hash>`.
pub open spec fn mount_name_of(p: Seq<char>) -> Seq<char> {
    "dcx-"@ + sanitized(last_component(p)) + "-"@ + path_hash(p)
}

/// `base` joined with `name` as paths join: an absolute `name` replaces `base`, a
/// relative one follows it after one `/`.
pub open spec fn join(base: Seq<char>, name: Seq<char>) -> Seq<char> {
    if name.len() > 0 && name[0] == '/' {
        name
    } else if base.len() == 0 {
        name
    } else if base.last() == '/' {
        base + name
    } else {
        base + seq!['/'] + name
    }
}

/// The relay directory under the home directory `home`.
pub open spec fn relay_of(home: Seq<char>) -> Seq<char> {
    join(home, ".colima-mounts"@)
}

/// The mount point of the workspace `w` in the relay directory `relay`.
pub open spec fn mount_point_of(relay: Seq<char>, w: Seq<char>) -> Seq<char> {
    join(relay, mount_name_of(w))
}

/// Where the first component below `base` starts within a path that lies under it.
pub open spec fn below_start(base: Seq<char>) -> int {
    if base.len() > 0 && base.last() == '/' {
        base.len() as int
    } else {
        base.len() as int + 1
    }
}

/// Whether `p` lies below `relay` and the first component below it starts with `dcx-`.
pub open spec fn is_managed(p: Seq<char>, relay: Seq<char>) -> bool {
    let k = below_start(relay);
    &&& has_prefix(p, relay)
    &&& k <= p.len()
    &&& (k == relay.len() + 1 ==> p[relay.len() as int] == '/')
    &&& has_prefix(p.subrange(k, p.len() as int), "dcx-"@)
}

/// Executable form of `hex_char`.
fn hex_digit(n: u8) -> (r: char)
    requires
        n < 16,
    ensures
        r == hex_char(n),
        is_lower_hex(r),
{
    if n < 10 {
        (n + 48) as char
    } else {
        (n + 87) as char
    }
}

/// Sanitize a path component: each byte of its UTF-8 encoding other than an ASCII letter
/// or digit becomes `-`, and the result is cut to 30 characters.
pub fn sanitize_name(name: &str) -> (r: String)
    ensures
        r@ == sanitized(name@),
{
    let bs = name.as_bytes();
    let ghost bytes = vstd::utf8::encode_utf8(name@);
    let mut out: Vec<char> = Vec::new();
    let mut i: usize = 0;
    while i < bs.len() && i < MAX_NAME_LEN
        invariant
            i <= bs@.len(),
            i <= MAX_NAME_LEN,
            bs@ == bytes,
            out@ == bytes.subrange(0, i as int).map_values(|b: u8| sanitize_byte(b)),
        decreases bs@.len() - i,
    {
        let b = bs[i];
        if (97 <= b && b <= 122) || (65 <= b && b <= 90) || (48 <= b && b <= 57) {
            out.push(b as char);
        } else {
            out.push('-');
        }
        i = i + 1;
        assert(out@ =~= bytes.subrange(0, i as int).map_values(|b: u8| sanitize_byte(b)));
    }
    string_of(&out)
}

/// The first eight lowercase hexadecimal digits of the SHA-256 digest of `abs_path`.
pub fn compute_hash(abs_path: &str) -> (r: String)
    ensures
        r@ == path_hash(abs_path@),
{
    let digest = sha256(abs_path.as_bytes());
    let mut out: Vec<char> = Vec::new();
    let mut i: usize = 0;
    while i < 4
        invariant
            i <= 4,
            digest@.len() == 32,
            out@.len() == 2 * i,
            forall|k: int| 0 <= k < 2 * i ==> out@[k] == hex8(digest@)[k],
        decreases 4 - i,
    {
        let b = digest[i];
        out.push(hex_digit(b / 16));
        out.push(hex_digit(b % 16));
        i = i + 1;
    }
    assert(out@ =~= hex8(digest@));
    string_of(&out)
}

/// The final component of `p`, as `last_component` states it.
pub fn final_component(p: &Vec<char>) -> (r: Vec<char>)
    ensures
        r@ == last_component(p@),
{
    let mut start: usize = p.len();
    proof {
        assert(p@.subrange(0, p@.len() as int) =~= p@);
        assert(p@.subrange(p@.len() as int, p@.len() as int) =~= Seq::<char>::empty());
        assert(last_component(p@) + Seq::<char>::empty() =~= last_component(p@));
    }
    while start > 0 && p[start - 1] != '/'
        invariant
            start <= p@.len(),
            forall|k: int| start <= k < p@.len() ==> p@[k] != '/',
            start > 0 ==> last_component(p@) == last_component(p@.subrange(0, start as int))
                + p@.subrange(start as int, p@.len() as int),
            start == 0 ==> last_component(p@) == p@,
        decreases start,
    {
        proof {
            let q = p@.subrange(0, start as int);
            assert(q.drop_last() =~= p@.subrange(0, start - 1));
            assert(p@.subrange(start - 1, p@.len() as int) =~= seq![q.last()] + p@.subrange(
                start as int,
                p@.len() as int,
            ));
            assert(last_component(q) == last_component(q.drop_last()).push(q.last()));
            if start - 1 == 0 {
                assert(last_component(q.drop_last()) =~= Seq::<char>::empty());
                assert(last_component(p@.subrange(0, 0)) =~= Seq::<char>::empty());
                assert(p@ =~= p@.subrange(0, 0) + seq![q.last()] + p@.subrange(start as int, p@.len() as int));
            }
            assert(last_component(q.drop_last()).push(q.last()) + p@.subrange(
                start as int,
                p@.len() as int,
            ) =~= last_component(q.drop_last()) + p@.subrange(start - 1, p@.len() as int));
        }
        start = start - 1;
    }
    proof {
        if start > 0 {
            let q = p@.subrange(0, start as int);
            assert(q.last() == '/');
            assert(last_component(q) =~= Seq::<char>::empty());
        }
    }
    crate::text::slice(p, start, p.len())
}

/// The mount name of an absolute workspace path: `dcx-<sanitized last component>-<hash>`.
pub fn mount_name(abs_path: &str) -> (r: String)
    ensures
        r@ == mount_name_of(abs_path@),
{
    let cs = chars_of(abs_path);
    let last = final_component(&cs);
    let last_s = string_of(&last);
    let sanitized_name = sanitize_name(last_s.as_str());
    let hash = compute_hash(abs_path);
    let mut out: Vec<char> = Vec::new();
    push_str(&mut out, "dcx-");
    push_str(&mut out, sanitized_name.as_str());
    push_str(&mut out, "-");
    push_str(&mut out, hash.as_str());
    string_of(&out)
}

/// `base` joined with `name`, as `join` states it.
pub fn join_path(base: &str, name: &str) -> (r: String)
    ensures
        r@ == join(base@, name@),
{
    let nv = chars_of(name);
    if nv.len() > 0 && nv[0] == '/' {
        return string_of(&nv);
    }
    let b = chars_of(base);
    let mut out: Vec<char> = Vec::new();
    push_all(&mut out, &b);
    if b.len() > 0 && b[b.len() - 1] != '/' {
        out.push('/');
    }
    push_str(&mut out, name);
    string_of(&out)
}

/// The relay directory: `<home>/.colima-mounts`.
pub fn relay_dir(home: &str) -> (r: String)
    ensures
        r@ == relay_of(home@),
{
    join_path(home, ".colima-mounts")
}

/// The mount point of the workspace `abs_path` in the relay directory `relay`.
pub fn mount_point(relay: &str, abs_path: &str) -> (r: String)
    ensures
        r@ == mount_point_of(relay@, abs_path@),
{
    let name = mount_name(abs_path);
    join_path(relay, name.as_str())
}

/// Whether `path` lies inside a managed mount, that is below `<relay>/dcx-*`.
pub fn is_dcx_managed_path(path: &str, relay: &str) -> (r: bool)
    ensures
        r == is_managed(path@, relay@),
{
    let p = chars_of(path);
    let rl = chars_of(relay);
    if rl.len() > p.len() {
        return false;
    }
    let mut i: usize = 0;
    while i < rl.len()
        invariant
            i <= rl@.len() <= p@.len(),
            p@ == path@,
            rl@ == relay@,
            forall|k: int| 0 <= k < i ==> p@[k] == rl@[k],
        decreases rl@.len() - i,
    {
        if p[i] != rl[i] {
            proof {
                assert(p@.subrange(0, rl@.len() as int)[i as int] != rl@[i as int]);
                assert(p@.subrange(0, rl@.len() as int) != rl@);
            }
            return false;
        }
        i = i + 1;
    }
    assert(p@.subrange(0, rl@.len() as int) =~= rl@);
    let k: usize = if rl.len() > 0 && rl[rl.len() - 1] == '/' {
        rl.len()
    } else {
        if rl.len() >= p.len() || p[rl.len()] != '/' {
            return false;
        }
        rl.len() + 1
    };
    if p.len() - k < 4 {
        proof {
            assert(p@.subrange(k as int, p@.len() as int).len() < 4);
            reveal_strlit("dcx-");
        }
        return false;
    }
    let r = p[k] == 'd' && p[k + 1] == 'c' && p[k + 2] == 'x' && p[k + 3] == '-';
    proof {
        reveal_strlit("dcx-");
        let rest = p@.subrange(k as int, p@.len() as int);
        if r {
            assert(rest.subrange(0, 4) =~= "dcx-"@);
        } else {
            assert(rest.subrange(0, 4)[0] == rest[0]);
            assert(rest.subrange(0, 4)[1] == rest[1]);
            assert(rest.subrange(0, 4)[2] == rest[2]);
            assert(rest.subrange(0, 4)[3] == rest[3]);
            assert(rest.subrange(0, 4) != "dcx-"@);
        }
    }
    r
}

/// The mount name is a function of the path alone: the same path always gives the same
/// name, and so the same mount point.
pub proof fn lemma_naming_deterministic(p: Seq<char>, q: Seq<char>, relay: Seq<char>)
    requires
        p == q,
    ensures
        mount_name_of(p) == mount_name_of(q),
        mount_point_of(relay, p) == mount_point_of(relay, q),
{
}

/// The sanitized segment of a mount name holds only ASCII letters, digits and `-`,
/// and is at most 30 characters long.
pub proof fn lemma_sanitized_bound(name: Seq<char>)
    ensures
        sanitized(name).len() <= MAX_NAME_LEN,
        forall|i: int|
            0 <= i < sanitized(name).len() ==> is_ascii_alnum(#[trigger] sanitized(name)[i])
                || sanitized(name)[i] == '-',
{
    let bytes = vstd::utf8::encode_utf8(name);
    assert forall|i: int| 0 <= i < sanitized(name).len() implies is_ascii_alnum(
        #[trigger] sanitized(name)[i],
    ) || sanitized(name)[i] == '-' by {
        let b = bytes[i];
        if is_alnum_byte(b) {
            assert(sanitized(name)[i] == b as char);
        }
    }
}

/// The hash part of a mount name is exactly eight lowercase hexadecimal digits.
pub proof fn lemma_hash_width(p: Seq<char>)
    ensures
        path_hash(p).len() == 8,
        forall|i: int| 0 <= i < 8 ==> is_lower_hex(#[trigger] path_hash(p)[i]),
{
    assert forall|i: int| 0 <= i < 8 implies is_lower_hex(#[trigger] path_hash(p)[i]) by {
        let d = sha256_of(vstd::utf8::encode_utf8(p));
        let b = d[i / 2];
        assert(b / 16 < 16 && b % 16 < 16) by (bit_vector);
    }
}

/// A mount name is `dcx-`, then the sanitized segment, then `-`, then the hash.
pub proof fn lemma_mount_name_shape(p: Seq<char>)
    ensures
        mount_name_of(p).len() == 4 + sanitized(last_component(p)).len() + 1 + 8,
        mount_name_of(p).subrange(0, 4) == "dcx-"@,
        mount_name_of(p).subrange(mount_name_of(p).len() - 8, mount_name_of(p).len() as int)
            == path_hash(p),
        mount_name_of(p)[mount_name_of(p).len() - 9] == '-',
{
    reveal_strlit("dcx-");
    reveal_strlit("-");
    let n = mount_name_of(p);
    let s = sanitized(last_component(p));
    assert(n =~= "dcx-"@ + s + "-"@ + path_hash(p));
    assert(n.subrange(0, 4) =~= "dcx-"@);
    assert(n.subrange(n.len() - 8, n.len() as int) =~= path_hash(p));
}

} // verus!
