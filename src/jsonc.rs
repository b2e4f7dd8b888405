use vstd::prelude::*;

use crate::text::{
    chars_of, find, find_char_from, find_sub, first_index, is_space, slice, space, string_of,
    trim, trim_chars,
};

verus! {

/// Where the comment scanner stands.
#[derive(Debug, Clone, Copy, PartialEq, Eq, Structural)]
pub enum ScanMode {
    /// Ordinary JSON text.
    Code,
    /// Inside a string literal.
    Str,
    /// Inside a `//` comment.
    Line,
    /// Inside a `/* */` comment.
    Block,
}

/// The text `s` with its comments taken out, read from the mode `m`.
///
/// A `//` comment is dropped up to its newline, which stays; a `/* */` comment is
/// dropped but for the newlines inside it; string literals are kept whole, and a
/// backslash in one keeps the character after it.
pub open spec fn strip_from(s: Seq<char>, m: ScanMode) -> Seq<char>
    decreases s.len(),
{
    if s.len() == 0 {
        Seq::empty()
    } else {
        let rest1 = s.subrange(1, s.len() as int);
        match m {
            ScanMode::Code => {
                if s[0] == '"' {
                    seq!['"'] + strip_from(rest1, ScanMode::Str)
                } else if s[0] == '/' && s.len() > 1 && s[1] == '/' {
                    strip_from(s.subrange(2, s.len() as int), ScanMode::Line)
                } else if s[0] == '/' && s.len() > 1 && s[1] == '*' {
                    strip_from(s.subrange(2, s.len() as int), ScanMode::Block)
                } else {
                    seq![s[0]] + strip_from(rest1, ScanMode::Code)
                }
            },
            ScanMode::Str => {
                if s[0] == '\\' && s.len() > 1 {
                    seq![s[0], s[1]] + strip_from(s.subrange(2, s.len() as int), ScanMode::Str)
                } else if s[0] == '"' {
                    seq!['"'] + strip_from(rest1, ScanMode::Code)
                } else {
                    seq![s[0]] + strip_from(rest1, ScanMode::Str)
                }
            },
            ScanMode::Line => {
                if s[0] == '\n' {
                    seq!['\n'] + strip_from(rest1, ScanMode::Code)
                } else {
                    strip_from(rest1, ScanMode::Line)
                }
            },
            ScanMode::Block => {
                if s[0] == '*' && s.len() > 1 && s[1] == '/' {
                    strip_from(s.subrange(2, s.len() as int), ScanMode::Code)
                } else if s[0] == '\n' {
                    seq!['\n'] + strip_from(rest1, ScanMode::Block)
                } else {
                    strip_from(rest1, ScanMode::Block)
                }
            },
        }
    }
}

/// `content` without its `//` and `/* */` comments.
pub open spec fn stripped(content: Seq<char>) -> Seq<char> {
    strip_from(content, ScanMode::Code)
}

/// Strip JSONC `//` and `/* */` comments from `content`, keeping string literals whole.
pub fn strip_jsonc_comments(content: &str) -> (r: String)
    ensures
        r@ == stripped(content@),
{
    let s = chars_of(content);
    let n = s.len();
    let mut out: Vec<char> = Vec::new();
    let mut mode = ScanMode::Code;
    let mut i: usize = 0;
    proof {
        assert(s@.subrange(0, n as int) =~= s@);
        assert(out@ + strip_from(s@, mode) =~= strip_from(s@, mode));
    }
    while i < n
        invariant
            n == s@.len(),
            i <= n,
            s@ == content@,
            out@ + strip_from(s@.subrange(i as int, n as int), mode) == stripped(content@),
        decreases n - i,
    {
        let ghost t = s@.subrange(i as int, n as int);
        let ghost before = out@;
        let ghost m0 = mode;
        proof {
            assert(t.subrange(1, t.len() as int) =~= s@.subrange(i + 1, n as int));
            if i + 2 <= n {
                assert(t.subrange(2, t.len() as int) =~= s@.subrange(i + 2, n as int));
            }
        }
        let c = s[i];
        let two = i + 1 < n;
        let next = if two {
            s[i + 1]
        } else {
            ' '
        };
        match mode {
            ScanMode::Code => {
                if c == '"' {
                    out.push(c);
                    mode = ScanMode::Str;
                    i = i + 1;
                } else if c == '/' && two && next == '/' {
                    mode = ScanMode::Line;
                    i = i + 2;
                } else if c == '/' && two && next == '*' {
                    mode = ScanMode::Block;
                    i = i + 2;
                } else {
                    out.push(c);
                    i = i + 1;
                }
            },
            ScanMode::Str => {
                if c == '\\' && two {
                    out.push(c);
                    out.push(next);
                    i = i + 2;
                } else if c == '"' {
                    out.push(c);
                    mode = ScanMode::Code;
                    i = i + 1;
                } else {
                    out.push(c);
                    i = i + 1;
                }
            },
            ScanMode::Line => {
                if c == '\n' {
                    out.push(c);
                    mode = ScanMode::Code;
                }
                i = i + 1;
            },
            ScanMode::Block => {
                if c == '*' && two && next == '/' {
                    mode = ScanMode::Code;
                    i = i + 2;
                } else {
                    if c == '\n' {
                        out.push(c);
                    }
                    i = i + 1;
                }
            },
        }
        proof {
            assert(out@ + strip_from(s@.subrange(i as int, n as int), mode) =~= before
                + strip_from(t, m0));
        }
    }
    proof {
        assert(s@.subrange(n as int, n as int) =~= Seq::<char>::empty());
        assert(out@ + Seq::<char>::empty() =~= out@);
    }
    string_of(&out)
}

/// `s` without its leading whitespace and colons.
pub open spec fn skip_sep(s: Seq<char>) -> Seq<char>
    decreases s.len(),
{
    if s.len() > 0 && (is_space(s[0]) || s[0] == ':') {
        skip_sep(s.drop_first())
    } else {
        s
    }
}

/// The value of the first `"image"` key of comment-free text, if it is a non-empty string.
///
/// The value runs from the opening quote to the next quote, and is trimmed.
pub open spec fn image_value(text: Seq<char>) -> Option<Seq<char>> {
    let key = "\"image\""@;
    match find_sub(text, key) {
        None => None,
        Some(pos) => {
            let after = skip_sep(text.subrange(pos + key.len(), text.len() as int));
            if after.len() == 0 || after[0] != '"' {
                None
            } else {
                let inner = after.subrange(1, after.len() as int);
                match first_index(inner, '"') {
                    None => None,
                    Some(e) => {
                        let v = trim(inner.subrange(0, e));
                        if v.len() == 0 {
                            None
                        } else {
                            Some(v)
                        }
                    },
                }
            }
        },
    }
}

/// The `"image"` value of a devcontainer configuration, comments set aside.
pub open spec fn image_field(content: Seq<char>) -> Option<Seq<char>> {
    image_value(stripped(content))
}

/// Extract the top-level `"image"` value of a devcontainer configuration.
pub fn extract_image_field(content: &str) -> (r: Option<String>)
    ensures
        match r {
            Some(v) => image_field(content@) == Some(v@),
            None => image_field(content@) is None,
        },
{
    let text_s = strip_jsonc_comments(content);
    let text = chars_of(text_s.as_str());
    let key = chars_of("\"image\"");
    proof {
        reveal_strlit("\"image\"");
    }
    let pos = match find(&text, &key) {
        Some(p) => p,
        None => {
            return None;
        },
    };
    let n = text.len();
    let mut a: usize = pos + key.len();
    proof {
        assert(text@.subrange(a as int, n as int) =~= text@.subrange(pos + key@.len(), n as int));
    }
    while a < n && (space(text[a]) || text[a] == ':')
        invariant
            pos + key@.len() <= a <= n == text@.len(),
            skip_sep(text@.subrange(pos + key@.len(), n as int)) == skip_sep(
                text@.subrange(a as int, n as int),
            ),
        decreases n - a,
    {
        proof {
            assert(text@.subrange(a as int, n as int).drop_first() =~= text@.subrange(
                a + 1,
                n as int,
            ));
        }
        a = a + 1;
    }
    let ghost after = text@.subrange(a as int, n as int);
    proof {
        if a < n {
            assert(!(is_space(after[0]) || after[0] == ':'));
        }
        assert(skip_sep(after) == after);
    }
    if a >= n || text[a] != '"' {
        return None;
    }
    let end = match find_char_from(&text, '"', a + 1) {
        Some(e) => e,
        None => {
            proof {
                assert(after.subrange(1, after.len() as int) =~= text@.subrange(a + 1, n as int));
            }
            return None;
        },
    };
    proof {
        assert(after.subrange(1, after.len() as int) =~= text@.subrange(a + 1, n as int));
        assert(text@.subrange(a + 1, n as int).subrange(0, end - (a + 1)) =~= text@.subrange(
            a + 1,
            end as int,
        ));
    }
    let raw = slice(&text, a + 1, end);
    let v = trim_chars(&raw);
    if v.len() == 0 {
        None
    } else {
        Some(string_of(&v))
    }
}

/// Text that opens with a `//` comment is stripped as the text after that comment's
/// newline, which is kept.
pub proof fn lemma_strip_line_comment(x: Seq<char>, y: Seq<char>)
    requires
        forall|i: int| 0 <= i < x.len() ==> x[i] != '\n',
    ensures
        stripped("//"@ + x + "\n"@ + y) == seq!['\n'] + stripped(y),
{
    reveal_strlit("//");
    reveal_strlit("\n");
    let s = "//"@ + x + "\n"@ + y;
    assert(s.subrange(2, s.len() as int) =~= x + "\n"@ + y);
    lemma_line_body(x, y);
}

proof fn lemma_line_body(x: Seq<char>, y: Seq<char>)
    requires
        forall|i: int| 0 <= i < x.len() ==> x[i] != '\n',
    ensures
        strip_from(x + "\n"@ + y, ScanMode::Line) == seq!['\n'] + stripped(y),
    decreases x.len(),
{
    reveal_strlit("\n");
    let s = x + "\n"@ + y;
    if x.len() == 0 {
        assert(s =~= seq!['\n'] + y);
        assert(s.subrange(1, s.len() as int) =~= y);
    } else {
        let x1 = x.subrange(1, x.len() as int);
        assert(s.subrange(1, s.len() as int) =~= x1 + "\n"@ + y);
        lemma_line_body(x1, y);
    }
}

/// Whether `x` holds the two characters `*/` one after the other.
pub open spec fn has_block_end(x: Seq<char>) -> bool {
    exists|i: int| 0 <= i < x.len() - 1 && #[trigger] x[i] == '*' && x[i + 1] == '/'
}

/// The newlines of `x`, which a block comment leaves behind.
pub open spec fn newlines(x: Seq<char>) -> Seq<char>
    decreases x.len(),
{
    if x.len() == 0 {
        Seq::empty()
    } else if x[0] == '\n' {
        seq!['\n'] + newlines(x.subrange(1, x.len() as int))
    } else {
        newlines(x.subrange(1, x.len() as int))
    }
}

/// Text that opens with a `/* */` comment is stripped as the text after it, preceded
/// by the comment's newlines.
pub proof fn lemma_strip_block_comment(x: Seq<char>, y: Seq<char>)
    requires
        !has_block_end(x),
        x.len() > 0 ==> x.last() != '*',
    ensures
        stripped("/*"@ + x + "*/"@ + y) == newlines(x) + stripped(y),
{
    reveal_strlit("/*");
    reveal_strlit("*/");
    let s = "/*"@ + x + "*/"@ + y;
    assert(s.subrange(2, s.len() as int) =~= x + "*/"@ + y);
    lemma_block_body(x, y);
}

proof fn lemma_block_body(x: Seq<char>, y: Seq<char>)
    requires
        !has_block_end(x),
        x.len() > 0 ==> x.last() != '*',
    ensures
        strip_from(x + "*/"@ + y, ScanMode::Block) == newlines(x) + stripped(y),
    decreases x.len(),
{
    reveal_strlit("*/");
    let s = x + "*/"@ + y;
    if x.len() == 0 {
        assert(s =~= seq!['*', '/'] + y);
        assert(s.subrange(2, s.len() as int) =~= y);
        assert(newlines(x) + stripped(y) =~= stripped(y));
    } else {
        let x1 = x.subrange(1, x.len() as int);
        assert(s.subrange(1, s.len() as int) =~= x1 + "*/"@ + y);
        assert(!has_block_end(x1)) by {
            if has_block_end(x1) {
                let i = choose|i: int| 0 <= i < x1.len() - 1 && #[trigger] x1[i] == '*' && x1[i + 1] == '/';
                assert(x[i + 1] == '*' && x[i + 2] == '/');
            }
        }
        if x[0] == '*' {
            if x.len() == 1 {
                assert(false);
            } else {
                assert(x[1] != '/');
            }
        }
        lemma_block_body(x1, y);
        if x[0] == '\n' {
            assert(seq!['\n'] + (newlines(x1) + stripped(y)) =~= newlines(x) + stripped(y));
        }
    }
}

proof fn lemma_find_past_newlines(nl: Seq<char>, t: Seq<char>, pat: Seq<char>)
    requires
        pat.len() > 0,
        pat[0] == '"',
        forall|i: int| 0 <= i < nl.len() ==> nl[i] == '\n',
    ensures
        find_sub(nl + t, pat) == (match find_sub(t, pat) {
            Some(k) => Some(k + nl.len()),
            None => None::<int>,
        }),
    decreases nl.len(),
{
    if nl.len() == 0 {
        assert(nl + t =~= t);
    } else {
        let s = nl + t;
        assert(s[0] == '\n');
        assert(!crate::text::has_prefix(s, pat)) by {
            if crate::text::has_prefix(s, pat) {
                assert(s.subrange(0, pat.len() as int)[0] == s[0]);
            }
        }
        let nl1 = nl.subrange(1, nl.len() as int);
        assert(s.drop_first() =~= nl1 + t);
        lemma_find_past_newlines(nl1, t, pat);
    }
}

proof fn lemma_image_past_newlines(nl: Seq<char>, t: Seq<char>)
    requires
        forall|i: int| 0 <= i < nl.len() ==> nl[i] == '\n',
    ensures
        image_value(nl + t) == image_value(t),
{
    reveal_strlit("\"image\"");
    let key = "\"image\""@;
    lemma_find_past_newlines(nl, t, key);
    crate::text::lemma_find_sub_valid(t, key);
    let s = nl + t;
    match find_sub(t, key) {
        Some(pos) => {
            assert(s.subrange(pos + nl.len() + key.len(), s.len() as int) =~= t.subrange(
                pos + key.len(),
                t.len() as int,
            ));
        },
        None => {},
    }
}

proof fn lemma_newlines_only(x: Seq<char>)
    ensures
        forall|i: int| 0 <= i < newlines(x).len() ==> newlines(x)[i] == '\n',
    decreases x.len(),
{
    if x.len() > 0 {
        let x1 = x.subrange(1, x.len() as int);
        lemma_newlines_only(x1);
        if x[0] == '\n' {
            assert forall|i: int| 0 <= i < newlines(x).len() implies newlines(x)[i] == '\n' by {
                if i > 0 {
                    assert(newlines(x)[i] == newlines(x1)[i - 1]);
                }
            }
        }
    }
}

/// An `"image"` key inside a leading `//` or `/* */` comment is ignored: the value found
/// is the one that the text after the comment gives.
pub proof fn lemma_image_ignores_comments(x: Seq<char>, y: Seq<char>)
    ensures
        (forall|i: int| 0 <= i < x.len() ==> x[i] != '\n') ==> image_field(
            "//"@ + x + "\n"@ + y,
        ) == image_field(y),
        (!has_block_end(x) && (x.len() > 0 ==> x.last() != '*')) ==> image_field(
            "/*"@ + x + "*/"@ + y,
        ) == image_field(y),
{
    if forall|i: int| 0 <= i < x.len() ==> x[i] != '\n' {
        lemma_strip_line_comment(x, y);
        lemma_image_past_newlines(seq!['\n'], stripped(y));
    }
    if !has_block_end(x) && (x.len() > 0 ==> x.last() != '*') {
        lemma_strip_block_comment(x, y);
        lemma_newlines_only(x);
        lemma_image_past_newlines(newlines(x), stripped(y));
    }
}

} // verus!
