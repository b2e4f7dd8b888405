use vstd::prelude::*;

use crate::cmd::str_views;
use crate::text::{chars_of, has_prefix, starts_with};

verus! {

/// Whether `a` comes strictly before `b`, character by character.
pub open spec fn lex_lt(a: Seq<char>, b: Seq<char>) -> bool
    decreases a.len(),
{
    if a.len() == 0 {
        b.len() > 0
    } else if b.len() == 0 {
        false
    } else if a[0] != b[0] {
        a[0] < b[0]
    } else {
        lex_lt(a.drop_first(), b.drop_first())
    }
}

/// Of two names, at most one comes before the other.
pub proof fn lemma_lex_asymmetric(a: Seq<char>, b: Seq<char>)
    ensures
        !(lex_lt(a, b) && lex_lt(b, a)),
    decreases a.len(),
{
    if a.len() > 0 && b.len() > 0 && a[0] == b[0] {
        lemma_lex_asymmetric(a.drop_first(), b.drop_first());
    }
}

/// Coming before is transitive.
pub proof fn lemma_lex_transitive(a: Seq<char>, b: Seq<char>, c: Seq<char>)
    requires
        lex_lt(a, b),
        lex_lt(b, c),
    ensures
        lex_lt(a, c),
    decreases a.len(),
{
    if a.len() > 0 && b.len() > 0 && c.len() > 0 && a[0] == b[0] && b[0] == c[0] {
        lemma_lex_transitive(a.drop_first(), b.drop_first(), c.drop_first());
    }
}

/// Whether the names `s` are in order.
pub open spec fn is_sorted(s: Seq<Seq<char>>) -> bool {
    forall|i: int, j: int| 0 <= i < j < s.len() ==> !lex_lt(#[trigger] s[j], #[trigger] s[i])
}

/// Whether a relay entry is a managed mount point: its name starts with `dcx-`.
pub open spec fn is_managed_name(name: Seq<char>) -> bool {
    has_prefix(name, "dcx-"@)
}

/// Whether the character `a` comes before `b`.
fn char_lt(a: char, b: char) -> (r: bool)
    ensures
        r == (a < b),
{
    a < b
}

/// Whether `a` comes strictly before `b`, as `lex_lt` states it.
pub fn name_before(a: &Vec<char>, b: &Vec<char>) -> (r: bool)
    ensures
        r == lex_lt(a@, b@),
{
    let mut i: usize = 0;
    proof {
        assert(a@.subrange(0, a@.len() as int) =~= a@);
        assert(b@.subrange(0, b@.len() as int) =~= b@);
    }
    while i < a.len() && i < b.len() && a[i] == b[i]
        invariant
            i <= a@.len(),
            i <= b@.len(),
            lex_lt(a@, b@) == lex_lt(
                a@.subrange(i as int, a@.len() as int),
                b@.subrange(i as int, b@.len() as int),
            ),
        decreases a@.len() - i,
    {
        proof {
            assert(a@.subrange(i as int, a@.len() as int).drop_first() =~= a@.subrange(
                i + 1,
                a@.len() as int,
            ));
            assert(b@.subrange(i as int, b@.len() as int).drop_first() =~= b@.subrange(
                i + 1,
                b@.len() as int,
            ));
        }
        i = i + 1;
    }
    proof {
        assert(a@.subrange(0, a@.len() as int) =~= a@);
        assert(b@.subrange(0, b@.len() as int) =~= b@);
    }
    if i == a.len() {
        i < b.len()
    } else if i == b.len() {
        false
    } else {
        char_lt(a[i], b[i])
    }
}

/// How many of the names `ns` are managed mount points.
pub open spec fn managed_count(ns: Seq<Seq<char>>) -> nat
    decreases ns.len(),
{
    if ns.len() == 0 {
        0
    } else {
        managed_count(ns.drop_last()) + if is_managed_name(ns.last()) {
            1nat
        } else {
            0nat
        }
    }
}

/// Inserts `item` into the sorted `r` after every name that does not come after it.
fn insert_sorted(r: &mut Vec<String>, item: String) -> (p: usize)
    requires
        is_sorted(str_views(old(r)@)),
    ensures
        p <= old(r)@.len(),
        final(r)@ == old(r)@.insert(p as int, item),
        is_sorted(str_views(final(r)@)),
{
    let x = chars_of(item.as_str());
    let mut p: usize = 0;
    while p < r.len() && !name_before(&x, &chars_of(r[p].as_str()))
        invariant
            p <= r@.len(),
            x@ == item@,
            forall|q: int| 0 <= q < p ==> !lex_lt(x@, #[trigger] r@[q]@),
        decreases r@.len() - p,
    {
        p = p + 1;
    }
    let ghost old_r = r@;
    let ghost sv = str_views(old_r);
    r.insert(p, item);
    proof {
        assert forall|i: int, j: int|
            0 <= i < j < r@.len() implies !lex_lt(
            #[trigger] str_views(r@)[j],
            #[trigger] str_views(r@)[i],
        ) by {
            let a = str_views(r@)[i];
            let b = str_views(r@)[j];
            if j < p {
                assert(a == sv[i] && b == sv[j]);
            } else if j == p {
                assert(b == x@);
                assert(a == old_r[i]@);
            } else if i == p {
                assert(a == x@);
                assert(b == old_r[j - 1]@);
                if lex_lt(b, a) {
                    assert(lex_lt(x@, old_r[p as int]@));
                    if j - 1 == p {
                        lemma_lex_asymmetric(x@, old_r[p as int]@);
                    } else {
                        assert(sv[j - 1] == b && sv[p as int] == old_r[p as int]@);
                        lemma_lex_transitive(b, x@, old_r[p as int]@);
                    }
                }
            } else if i < p {
                assert(a == sv[i] && b == sv[j - 1]);
            } else {
                assert(a == sv[i - 1] && b == sv[j - 1]);
            }
        }
    }
    p
}

/// The relay entries that are managed mount points, in lexicographic order.
///
/// Every managed name given is kept and nothing else is: the result holds each managed
/// input and only managed inputs, in order, each as often as it was given.
pub fn managed_entries(names: &Vec<String>) -> (r: Vec<String>)
    ensures
        is_sorted(str_views(r@)),
        forall|i: int|
            0 <= i < r@.len() ==> is_managed_name(#[trigger] r@[i]@) && exists|j: int|
                0 <= j < names@.len() && names@[j]@ == r@[i]@,
        forall|j: int|
            0 <= j < names@.len() && is_managed_name(#[trigger] names@[j]@) ==> exists|i: int|
                0 <= i < r@.len() && r@[i]@ == names@[j]@,
        r@.len() == managed_count(str_views(names@)),
{
    let prefix = chars_of("dcx-");
    let mut r: Vec<String> = Vec::new();
    let mut k: usize = 0;
    while k < names.len()
        invariant
            k <= names@.len(),
            prefix@ == "dcx-"@,
            is_sorted(str_views(r@)),
            forall|i: int|
                0 <= i < r@.len() ==> is_managed_name(#[trigger] r@[i]@) && exists|j: int|
                    0 <= j < k && names@[j]@ == r@[i]@,
            forall|j: int|
                0 <= j < k && is_managed_name(#[trigger] names@[j]@) ==> exists|i: int|
                    0 <= i < r@.len() && r@[i]@ == names@[j]@,
            r@.len() == managed_count(str_views(names@).subrange(0, k as int)),
        decreases names@.len() - k,
    {
        proof {
            let nv = str_views(names@);
            assert(nv.subrange(0, k + 1).drop_last() =~= nv.subrange(0, k as int));
            assert(nv.subrange(0, k + 1).last() == names@[k as int]@);
        }
        let x = chars_of(names[k].as_str());
        if starts_with(&x, &prefix) {
            let ghost old_r = r@;
            let p = insert_sorted(&mut r, names[k].clone());
            proof {
                assert forall|i: int| 0 <= i < r@.len() implies is_managed_name(#[trigger] r@[i]@)
                    && exists|j: int| 0 <= j < k + 1 && names@[j]@ == r@[i]@ by {
                    if i < p {
                        assert(r@[i] == old_r[i]);
                    } else if i == p {
                        assert(r@[i]@ == names@[k as int]@);
                    } else {
                        assert(r@[i] == old_r[i - 1]);
                    }
                }
                assert forall|j: int|
                    0 <= j < k + 1 && is_managed_name(#[trigger] names@[j]@) implies exists|i: int|
                    0 <= i < r@.len() && r@[i]@ == names@[j]@ by {
                    if j == k {
                        assert(r@[p as int]@ == names@[j]@);
                    } else {
                        let i0 = choose|i: int| 0 <= i < old_r.len() && old_r[i]@ == names@[j]@;
                        if i0 < p {
                            assert(r@[i0] == old_r[i0]);
                        } else {
                            assert(r@[i0 + 1] == old_r[i0]);
                        }
                    }
                }
            }
        }
        k = k + 1;
    }
    proof {
        assert(str_views(names@).subrange(0, k as int) =~= str_views(names@));
    }
    r
}

} // verus!
