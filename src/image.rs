use vstd::prelude::*;

use crate::cmd::str_views;
use crate::text::{before_char, chars_of, find, find_char_from, find_sub, first_index, push_all, slice, string_of};

verus! {

/// What opens a reference to a host environment variable in a configuration value.
pub open spec fn env_open() -> Seq<char> {
    "${localEnv:"@
}

/// The default written in the reference body `inner` (`NAME:default`), or nothing.
pub open spec fn env_default(inner: Seq<char>) -> Seq<char> {
    match first_index(inner, ':') {
        Some(c) => inner.subrange(c + 1, inner.len() as int),
        None => Seq::empty(),
    }
}

/// Where the reference that opens first in `s` starts, and where its closing `}` stands
/// in the text after the opener, if `s` holds a closed reference there.
pub open spec fn next_ref(s: Seq<char>) -> Option<(int, int)> {
    match find_sub(s, env_open()) {
        None => None,
        Some(i) => if 0 <= i && i + 11 <= s.len() {
            match first_index(s.subrange(i + 11, s.len() as int), '}') {
                Some(e) => if 0 <= e && i + 11 + e < s.len() {
                    Some((i, e))
                } else {
                    None
                },
                None => None,
            }
        } else {
            None
        },
    }
}

/// The names of the `${localEnv:NAME:default}` references of `s`, in order. A reference
/// without a closing `}` ends the scan.
pub open spec fn env_refs(s: Seq<char>) -> Seq<Seq<char>>
    decreases s.len(),
{
    match next_ref(s) {
        None => Seq::empty(),
        Some((i, e)) => {
            let inner = s.subrange(i + 11, i + 11 + e);
            if i + 12 + e <= s.len() {
                seq![before_char(inner, ':')] + env_refs(s.subrange(i + 12 + e, s.len() as int))
            } else {
                Seq::empty()
            }
        },
    }
}

/// The value given for the `k`-th reference: `values[k]` if there is one.
pub open spec fn value_at(values: Seq<Option<String>>, k: int) -> Option<Seq<char>> {
    if 0 <= k < values.len() {
        match values[k] {
            Some(v) => Some(v@),
            None => None,
        }
    } else {
        None
    }
}

/// `s` with each closed reference replaced, in order from the `k`-th, by its given value,
/// or by its default where none is given.
pub open spec fn env_expanded(s: Seq<char>, values: Seq<Option<String>>, k: int) -> Seq<char>
    decreases s.len(),
{
    match next_ref(s) {
        None => s,
        Some((i, e)) => {
            let inner = s.subrange(i + 11, i + 11 + e);
            let v = match value_at(values, k) {
                Some(v) => v,
                None => env_default(inner),
            };
            if i + 12 + e <= s.len() {
                s.subrange(0, i) + v + env_expanded(s.subrange(i + 12 + e, s.len() as int), values, k + 1)
            } else {
                s
            }
        },
    }
}

/// Where the next closed reference of `v[from..]` is, as `next_ref` states it.
fn find_ref(v: &Vec<char>, from: usize) -> (r: Option<(usize, usize)>)
    requires
        from <= v@.len(),
    ensures
        match next_ref(v@.subrange(from as int, v@.len() as int)) {
            None => r is None,
            Some((i, e)) => r == Some((i as usize, e as usize)),
        },
{
    let open = chars_of("${localEnv:");
    proof {
        reveal_strlit("${localEnv:");
    }
    let rest = slice(v, from, v.len());
    let i = match find(&rest, &open) {
        None => {
            return None;
        },
        Some(i) => i,
    };
    proof {
        crate::text::lemma_find_sub_valid(rest@, open@);
    }
    let after = slice(&rest, i + 11, rest.len());
    proof {
        assert(after@.subrange(0, after@.len() as int) =~= after@);
    }
    match find_char_from(&after, '}', 0) {
        None => None,
        Some(e) => Some((i, e)),
    }
}

/// The names of the host environment variables that `value` refers to with
/// `${localEnv:NAME:default}`, in order; their values are what `expand_local_env` takes.
pub fn local_env_names(value: &str) -> (r: Vec<String>)
    ensures
        str_views(r@) == env_refs(value@),
{
    let v = chars_of(value);
    let n = v.len();
    let mut r: Vec<String> = Vec::new();
    let mut pos: usize = 0;
    proof {
        assert(v@.subrange(0, n as int) =~= v@);
        assert(str_views(r@) + env_refs(v@) =~= env_refs(v@));
    }
    loop
        invariant
            pos <= n == v@.len(),
            v@ == value@,
            str_views(r@) + env_refs(v@.subrange(pos as int, n as int)) == env_refs(value@),
        decreases n - pos,
    {
        let ghost t = v@.subrange(pos as int, n as int);
        match find_ref(&v, pos) {
            None => {
                proof {
                    assert(str_views(r@) + Seq::<Seq<char>>::empty() =~= str_views(r@));
                }
                return r;
            },
            Some((i, e)) => {
                let inner = slice(&v, pos + i + 11, pos + i + 11 + e);
                let name_end = match find_char_from(&inner, ':', 0) {
                    Some(c) => c,
                    None => inner.len(),
                };
                proof {
                    assert(inner@.subrange(0, inner@.len() as int) =~= inner@);
                    assert(t.subrange(i + 11, i + 11 + e) =~= inner@);
                    assert(t.subrange(i + 12 + e, t.len() as int) =~= v@.subrange(
                        pos + i + 12 + e,
                        n as int,
                    ));
                }
                let name = slice(&inner, 0, name_end);
                let ghost before = str_views(r@);
                r.push(string_of(&name));
                proof {
                    assert(name@ == before_char(inner@, ':'));
                    assert(str_views(r@) =~= before.push(name@));
                    assert(str_views(r@) + env_refs(v@.subrange(pos + i + 12 + e, n as int))
                        =~= before + env_refs(t));
                }
                pos = pos + i + 12 + e;
            },
        }
    }
}

/// Expand the `${localEnv:NAME:default}` references of `value`: the `k`-th reference, in
/// the order `local_env_names` lists them, becomes `values[k]` when that is given, else
/// its default. A reference without a closing `}` is left as written, with what follows.
pub fn expand_local_env(value: &str, values: &Vec<Option<String>>) -> (r: String)
    ensures
        r@ == env_expanded(value@, values@, 0),
{
    let v = chars_of(value);
    let n = v.len();
    let mut out: Vec<char> = Vec::new();
    let mut pos: usize = 0;
    let mut k: usize = 0;
    proof {
        assert(v@.subrange(0, n as int) =~= v@);
        assert(out@ + env_expanded(v@, values@, 0) =~= env_expanded(v@, values@, 0));
    }
    loop
        invariant
            pos <= n == v@.len(),
            v@ == value@,
            k <= pos,
            out@ + env_expanded(v@.subrange(pos as int, n as int), values@, k as int)
                == env_expanded(value@, values@, 0),
        decreases n - pos,
    {
        let ghost t = v@.subrange(pos as int, n as int);
        match find_ref(&v, pos) {
            None => {
                let rest = slice(&v, pos, n);
                push_all(&mut out, &rest);
                return string_of(&out);
            },
            Some((i, e)) => {
                let inner = slice(&v, pos + i + 11, pos + i + 11 + e);
                proof {
                    assert(t.subrange(i + 11, i + 11 + e) =~= inner@);
                    assert(t.subrange(i + 12 + e, t.len() as int) =~= v@.subrange(
                        pos + i + 12 + e,
                        n as int,
                    ));
                    assert(t.subrange(0, i as int) =~= v@.subrange(pos as int, pos + i));
                }
                let given: Option<&String> = if k < values.len() {
                    match &values[k] {
                        Some(s) => Some(s),
                        None => None,
                    }
                } else {
                    None
                };
                let ghost before = out@;
                let head = slice(&v, pos, pos + i);
                push_all(&mut out, &head);
                match given {
                    Some(s) => {
                        let sv = chars_of(s.as_str());
                        push_all(&mut out, &sv);
                    },
                    None => {
                        proof {
                            assert(inner@.subrange(0, inner@.len() as int) =~= inner@);
                        }
                        match find_char_from(&inner, ':', 0) {
                            Some(c) => {
                                let d = slice(&inner, c + 1, inner.len());
                                push_all(&mut out, &d);
                            },
                            None => {},
                        }
                    },
                }
                proof {
                    let val = match value_at(values@, k as int) {
                        Some(x) => x,
                        None => env_default(inner@),
                    };
                    assert(out@ =~= before + t.subrange(0, i as int) + val);
                    assert(out@ + env_expanded(v@.subrange(pos + i + 12 + e, n as int), values@, k + 1)
                        =~= before + env_expanded(t, values@, k as int));
                }
                pos = pos + i + 12 + e;
                k = k + 1;
            },
        }
    }
}

} // verus!
