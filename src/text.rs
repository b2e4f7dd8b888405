use vstd::prelude::*;

verus! {

/// Relies on `str::chars`: the characters of the string, in order.
#[verifier::external_body]
pub fn chars_of(s: &str) -> (r: Vec<char>)
    ensures
        r@ == s@,
{
    s.chars().collect()
}

/// Relies on `String::from_iter`: a string made of exactly these characters.
#[verifier::external_body]
pub fn string_of(cs: &Vec<char>) -> (r: String)
    ensures
        r@ == cs@,
{
    String::from_iter(cs.iter())
}

/// Whether `c` is ASCII whitespace or one of the other Unicode `White_Space` characters.
pub open spec fn is_space(c: char) -> bool {
    c == '\t' || c == '\n' || c == '\u{0B}' || c == '\u{0C}' || c == '\r' || c == ' '
        || c == '\u{85}' || c == '\u{A0}' || c == '\u{1680}' || ('\u{2000}' <= c
        && c <= '\u{200A}') || c == '\u{2028}' || c == '\u{2029}' || c == '\u{202F}'
        || c == '\u{205F}' || c == '\u{3000}'
}

/// Executable form of `is_space`.
pub fn space(c: char) -> (r: bool)
    ensures
        r == is_space(c),
{
    c == '\t' || c == '\n' || c == '\u{0B}' || c == '\u{0C}' || c == '\r' || c == ' '
        || c == '\u{85}' || c == '\u{A0}' || c == '\u{1680}' || ('\u{2000}' <= c
        && c <= '\u{200A}') || c == '\u{2028}' || c == '\u{2029}' || c == '\u{202F}'
        || c == '\u{205F}' || c == '\u{3000}'
}

/// `s` without its leading whitespace.
pub open spec fn trim_start(s: Seq<char>) -> Seq<char>
    decreases s.len(),
{
    if s.len() > 0 && is_space(s[0]) {
        trim_start(s.drop_first())
    } else {
        s
    }
}

/// `s` without its trailing whitespace.
pub open spec fn trim_end(s: Seq<char>) -> Seq<char>
    decreases s.len(),
{
    if s.len() > 0 && is_space(s.last()) {
        trim_end(s.drop_last())
    } else {
        s
    }
}

/// `s` without leading and trailing whitespace.
pub open spec fn trim(s: Seq<char>) -> Seq<char> {
    trim_end(trim_start(s))
}

/// Whether `p` is a prefix of `s`.
pub open spec fn has_prefix(s: Seq<char>, p: Seq<char>) -> bool {
    p.len() <= s.len() && s.subrange(0, p.len() as int) == p
}

/// Whether `p` is a suffix of `s`.
pub open spec fn has_suffix(s: Seq<char>, p: Seq<char>) -> bool {
    p.len() <= s.len() && s.subrange(s.len() - p.len(), s.len() as int) == p
}

/// Position of the first `c` in `s`, if any.
pub open spec fn first_index(s: Seq<char>, c: char) -> Option<int>
    decreases s.len(),
{
    if s.len() == 0 {
        None
    } else if s[0] == c {
        Some(0)
    } else {
        match first_index(s.drop_first(), c) {
            Some(i) => Some(i + 1),
            None => None,
        }
    }
}

/// The text before the first `c`, or all of `s`.
pub open spec fn before_char(s: Seq<char>, c: char) -> Seq<char> {
    match first_index(s, c) {
        Some(i) => s.subrange(0, i),
        None => s,
    }
}

/// The pieces of `s` between occurrences of `sep` (as `str::split` gives them).
pub open spec fn split_on(s: Seq<char>, sep: char) -> Seq<Seq<char>>
    decreases s.len(),
{
    match first_index(s, sep) {
        Some(i) => if 0 <= i < s.len() {
            seq![s.subrange(0, i)] + split_on(s.subrange(i + 1, s.len() as int), sep)
        } else {
            seq![s]
        },
        None => seq![s],
    }
}

/// The lines of `s` as `str::lines` gives them: split at `\n`, without a last empty
/// piece, and with one trailing `\r` taken off each line.
pub open spec fn lines(s: Seq<char>) -> Seq<Seq<char>> {
    let pieces = split_on(s, '\n');
    let kept = if pieces.last().len() == 0 {
        pieces.drop_last()
    } else {
        pieces
    };
    kept.map_values(|l: Seq<char>| strip_cr(l))
}

/// `l` without one trailing carriage return.
pub open spec fn strip_cr(l: Seq<char>) -> Seq<char> {
    if l.len() > 0 && l.last() == '\r' {
        l.drop_last()
    } else {
        l
    }
}

proof fn lemma_first_index(s: Seq<char>, c: char)
    ensures
        match first_index(s, c) {
            Some(i) => 0 <= i < s.len() && s[i] == c && forall|j: int| 0 <= j < i ==> s[j] != c,
            None => forall|j: int| 0 <= j < s.len() ==> s[j] != c,
        },
    decreases s.len(),
{
    if s.len() > 0 && s[0] != c {
        lemma_first_index(s.drop_first(), c);
        match first_index(s.drop_first(), c) {
            Some(i) => {
                assert forall|j: int| 0 <= j < i + 1 implies s[j] != c by {
                    if j > 0 {
                        assert(s[j] == s.drop_first()[j - 1]);
                    }
                }
            },
            None => {
                assert forall|j: int| 0 <= j < s.len() implies s[j] != c by {
                    if j > 0 {
                        assert(s[j] == s.drop_first()[j - 1]);
                    }
                }
            },
        }
    }
}

/// `first_index` is the least position holding `c`.
pub proof fn lemma_first_index_is(s: Seq<char>, c: char, i: int)
    requires
        0 <= i < s.len(),
        s[i] == c,
        forall|j: int| 0 <= j < i ==> s[j] != c,
    ensures
        first_index(s, c) == Some(i),
{
    lemma_first_index(s, c);
    match first_index(s, c) {
        Some(k) => {
            if k < i {
                assert(s[k] != c);
            } else if k > i {
            }
        },
        None => {
            assert(s[i] != c);
        },
    }
}

/// `first_index` is `None` exactly where `c` does not occur.
pub proof fn lemma_first_index_none(s: Seq<char>, c: char)
    requires
        forall|j: int| 0 <= j < s.len() ==> s[j] != c,
    ensures
        first_index(s, c) is None,
{
    lemma_first_index(s, c);
    match first_index(s, c) {
        Some(k) => {
            assert(s[k] != c);
        },
        None => {},
    }
}

/// Position of the first `c` in `v` at or after `from`, if any.
pub fn find_char_from(v: &Vec<char>, c: char, from: usize) -> (r: Option<usize>)
    requires
        from <= v@.len(),
    ensures
        match r {
            Some(i) => from <= i < v@.len() && v@[i as int] == c && first_index(
                v@.subrange(from as int, v@.len() as int),
                c,
            ) == Some(i - from),
            None => first_index(v@.subrange(from as int, v@.len() as int), c) is None,
        },
{
    let mut i: usize = from;
    while i < v.len()
        invariant
            from <= i <= v@.len(),
            forall|j: int| from <= j < i ==> v@[j] != c,
        decreases v@.len() - i,
    {
        if v[i] == c {
            let ghost t = v@.subrange(from as int, v@.len() as int);
            proof {
                lemma_first_index_is(t, c, i - from);
            }
            return Some(i);
        }
        i = i + 1;
    }
    proof {
        lemma_first_index_none(v@.subrange(from as int, v@.len() as int), c);
    }
    None
}

/// The characters `v[from..to]`.
pub fn slice(v: &Vec<char>, from: usize, to: usize) -> (r: Vec<char>)
    requires
        from <= to <= v@.len(),
    ensures
        r@ == v@.subrange(from as int, to as int),
{
    let mut r: Vec<char> = Vec::new();
    let mut i: usize = from;
    while i < to
        invariant
            from <= i <= to <= v@.len(),
            r@ == v@.subrange(from as int, i as int),
        decreases to - i,
    {
        r.push(v[i]);
        i = i + 1;
        assert(r@ =~= v@.subrange(from as int, i as int));
    }
    r
}

/// Appends the characters of `src` to `dst`.
pub fn push_all(dst: &mut Vec<char>, src: &Vec<char>)
    ensures
        final(dst)@ == old(dst)@ + src@,
{
    let ghost start = dst@;
    let mut i: usize = 0;
    while i < src.len()
        invariant
            i <= src@.len(),
            dst@ == start + src@.subrange(0, i as int),
        decreases src@.len() - i,
    {
        dst.push(src[i]);
        i = i + 1;
        assert(dst@ =~= start + src@.subrange(0, i as int));
    }
    assert(src@.subrange(0, src@.len() as int) =~= src@);
}

/// Appends the characters of `s` to `dst`.
pub fn push_str(dst: &mut Vec<char>, s: &str)
    ensures
        final(dst)@ == old(dst)@ + s@,
{
    let cs = chars_of(s);
    push_all(dst, &cs);
}

/// The characters of `v` without leading and trailing whitespace.
pub fn trim_chars(v: &Vec<char>) -> (r: Vec<char>)
    ensures
        r@ == trim(v@),
{
    let n = v.len();
    let mut a: usize = 0;
    proof {
        assert(v@.subrange(0, n as int) =~= v@);
    }
    while a < n && space(v[a])
        invariant
            a <= n == v@.len(),
            trim_start(v@) == trim_start(v@.subrange(a as int, n as int)),
        decreases n - a,
    {
        proof {
            let t = v@.subrange(a as int, n as int);
            assert(t.drop_first() =~= v@.subrange(a + 1, n as int));
        }
        a = a + 1;
    }
    let ghost w = v@.subrange(a as int, n as int);
    proof {
        if a < n {
            assert(!is_space(w[0]));
        }
        assert(trim_start(v@) == w);
        assert(w.subrange(0, (n - a) as int) =~= w);
    }
    let mut b: usize = n;
    while b > a && space(v[b - 1])
        invariant
            a <= b <= n == v@.len(),
            w == v@.subrange(a as int, n as int),
            trim_end(w) == trim_end(v@.subrange(a as int, b as int)),
        decreases b - a,
    {
        proof {
            let t = v@.subrange(a as int, b as int);
            assert(t.drop_last() =~= v@.subrange(a as int, b - 1));
        }
        b = b - 1;
    }
    slice(v, a, b)
}

/// Whether `v` begins with the characters of `p`.
pub fn starts_with(v: &Vec<char>, p: &Vec<char>) -> (r: bool)
    ensures
        r == has_prefix(v@, p@),
{
    if p.len() > v.len() {
        return false;
    }
    let mut i: usize = 0;
    while i < p.len()
        invariant
            i <= p@.len() <= v@.len(),
            forall|k: int| 0 <= k < i ==> v@[k] == p@[k],
        decreases p@.len() - i,
    {
        if v[i] != p[i] {
            proof {
                assert(v@.subrange(0, p@.len() as int)[i as int] != p@[i as int]);
            }
            return false;
        }
        i = i + 1;
    }
    assert(v@.subrange(0, p@.len() as int) =~= p@);
    true
}

/// Whether `v` ends with the characters of `p`.
pub fn ends_with(v: &Vec<char>, p: &Vec<char>) -> (r: bool)
    ensures
        r == has_suffix(v@, p@),
{
    if p.len() > v.len() {
        return false;
    }
    let off = v.len() - p.len();
    let mut i: usize = 0;
    while i < p.len()
        invariant
            i <= p@.len() <= v@.len(),
            off == v@.len() - p@.len(),
            off + p@.len() == v.len(),
            forall|k: int| 0 <= k < i ==> v@[off + k] == p@[k],
        decreases p@.len() - i,
    {
        if v[off + i] != p[i] {
            proof {
                assert(v@.subrange(off as int, v@.len() as int)[i as int] != p@[i as int]);
            }
            return false;
        }
        i = i + 1;
    }
    assert(v@.subrange(off as int, v@.len() as int) =~= p@);
    true
}

/// Position of the first occurrence of `pat` in `s`, if any.
pub open spec fn find_sub(s: Seq<char>, pat: Seq<char>) -> Option<int>
    decreases s.len(),
{
    if has_prefix(s, pat) {
        Some(0)
    } else if s.len() == 0 {
        None
    } else {
        match find_sub(s.drop_first(), pat) {
            Some(i) => Some(i + 1),
            None => None,
        }
    }
}

/// Where `find_sub` finds `pat`, `pat` stands.
pub proof fn lemma_find_sub_valid(s: Seq<char>, pat: Seq<char>)
    ensures
        find_sub(s, pat) matches Some(i) ==> 0 <= i && i + pat.len() <= s.len() && s.subrange(
            i,
            i + pat.len(),
        ) == pat,
    decreases s.len(),
{
    if !has_prefix(s, pat) && s.len() > 0 {
        lemma_find_sub_valid(s.drop_first(), pat);
        if let Some(i) = find_sub(s.drop_first(), pat) {
            assert(s.subrange(i + 1, i + 1 + pat.len()) =~= s.drop_first().subrange(
                i,
                i + pat.len(),
            ));
        }
    }
}

/// Position of the first occurrence of the non-empty `pat` in `v`, if any.
pub fn find(v: &Vec<char>, pat: &Vec<char>) -> (r: Option<usize>)
    requires
        pat@.len() > 0,
    ensures
        match r {
            Some(i) => find_sub(v@, pat@) == Some(i as int),
            None => find_sub(v@, pat@) is None,
        },
        r matches Some(i) ==> i + pat@.len() <= v@.len() && v@.subrange(
            i as int,
            i + pat@.len(),
        ) == pat@,
{
    let n = v.len();
    let mut i: usize = 0;
    proof {
        assert(v@.subrange(0, n as int) =~= v@);
    }
    while i < n
        invariant
            i <= n == v@.len(),
            pat@.len() > 0,
            find_sub(v@, pat@) == (match find_sub(v@.subrange(i as int, n as int), pat@) {
                Some(k) => Some(k + i),
                None => None::<int>,
            }),
        decreases n - i,
    {
        let t = slice(v, i, n);
        if starts_with(&t, pat) {
            proof {
                assert(t@.subrange(0, pat@.len() as int) =~= v@.subrange(i as int, i + pat@.len()));
            }
            return Some(i);
        }
        proof {
            assert(t@.drop_first() =~= v@.subrange(i + 1, n as int));
        }
        i = i + 1;
    }
    proof {
        let e = v@.subrange(n as int, n as int);
        assert(!has_prefix(e, pat@));
    }
    None
}

/// The views of a sequence of character vectors.
pub open spec fn views(v: Seq<Vec<char>>) -> Seq<Seq<char>> {
    v.map_values(|x: Vec<char>| x@)
}

/// The pieces of `v` between occurrences of `sep`, as `split_on` states them.
pub fn split_chars(v: &Vec<char>, sep: char) -> (r: Vec<Vec<char>>)
    ensures
        views(r@) == split_on(v@, sep),
{
    let n = v.len();
    let mut r: Vec<Vec<char>> = Vec::new();
    let mut start: usize = 0;
    proof {
        assert(v@.subrange(0, n as int) =~= v@);
        assert(views(r@) + split_on(v@, sep) =~= split_on(v@, sep));
    }
    loop
        invariant
            start <= n == v@.len(),
            views(r@) + split_on(v@.subrange(start as int, n as int), sep) == split_on(v@, sep),
        decreases n - start,
    {
        let ghost t = v@.subrange(start as int, n as int);
        match find_char_from(v, sep, start) {
            Some(i) => {
                let piece = slice(v, start, i);
                proof {
                    assert(t.subrange(0, i - start) =~= piece@);
                    assert(t.subrange(i - start + 1, t.len() as int) =~= v@.subrange(
                        i + 1,
                        n as int,
                    ));
                }
                let ghost before = views(r@);
                r.push(piece);
                proof {
                    assert(views(r@) =~= before.push(piece@));
                    assert(views(r@) + split_on(v@.subrange(i + 1, n as int), sep) =~= before
                        + split_on(t, sep));
                }
                start = i + 1;
            },
            None => {
                let piece = slice(v, start, n);
                let ghost before = views(r@);
                r.push(piece);
                proof {
                    assert(views(r@) =~= before.push(piece@));
                    assert(views(r@) =~= before + split_on(t, sep));
                }
                return r;
            },
        }
    }
}

/// The lines of `v`, as `lines` states them.
pub fn split_lines(v: &Vec<char>) -> (r: Vec<Vec<char>>)
    ensures
        views(r@) == lines(v@),
{
    let pieces = split_chars(v, '\n');
    let ghost ps = split_on(v@, '\n');
    let mut keep = pieces.len();
    proof {
        lemma_split_nonempty(v@, '\n');
    }
    if keep > 0 && pieces[keep - 1].len() == 0 {
        keep = keep - 1;
    }
    let ghost kept = if ps.last().len() == 0 {
        ps.drop_last()
    } else {
        ps
    };
    proof {
        assert(pieces@[pieces@.len() - 1]@ == ps.last());
        assert(kept.len() == keep);
    }
    let mut r: Vec<Vec<char>> = Vec::new();
    let mut i: usize = 0;
    while i < keep
        invariant
            i <= keep == kept.len() <= pieces@.len(),
            views(pieces@) == ps,
            forall|k: int| 0 <= k < kept.len() ==> kept[k] == ps[k],
            views(r@) == kept.subrange(0, i as int).map_values(|l: Seq<char>| strip_cr(l)),
        decreases keep - i,
    {
        let line = &pieces[i];
        let ghost lv = line@;
        let mut end = line.len();
        if end > 0 && line[end - 1] == '\r' {
            end = end - 1;
        }
        let piece = slice(line, 0, end);
        proof {
            assert(lv == ps[i as int]);
            if lv.len() > 0 && lv.last() == '\r' {
                assert(piece@ =~= lv.drop_last());
            } else {
                assert(piece@ =~= lv);
            }
        }
        let ghost before = views(r@);
        r.push(piece);
        proof {
            assert(views(r@) =~= before.push(piece@));
        }
        i = i + 1;
        proof {
            assert(views(r@) =~= kept.subrange(0, i as int).map_values(|l: Seq<char>| strip_cr(l)));
        }
    }
    proof {
        assert(kept.subrange(0, keep as int) =~= kept);
    }
    r
}

proof fn lemma_split_nonempty(s: Seq<char>, sep: char)
    ensures
        split_on(s, sep).len() > 0,
    decreases s.len(),
{
    if let Some(i) = first_index(s, sep) {
        if 0 <= i < s.len() {
            lemma_split_nonempty(s.subrange(i + 1, s.len() as int), sep);
        }
    }
}

/// The length of the word at the start of `s`: the characters before the first whitespace.
pub open spec fn word_len(s: Seq<char>) -> nat
    decreases s.len(),
{
    if s.len() == 0 || is_space(s[0]) {
        0
    } else {
        1 + word_len(s.drop_first())
    }
}

/// The whitespace-separated words of `s`, as `str::split_whitespace` gives them.
pub open spec fn words(s: Seq<char>) -> Seq<Seq<char>>
    decreases s.len(),
{
    let t = trim_start(s);
    if t.len() == 0 {
        Seq::empty()
    } else {
        let k = word_len(t);
        if t.len() <= s.len() && 0 < k && k <= t.len() {
            seq![t.subrange(0, k as int)] + words(t.subrange(k as int, t.len() as int))
        } else {
            Seq::empty()
        }
    }
}

proof fn lemma_trim_start_suffix(s: Seq<char>)
    ensures
        trim_start(s).len() <= s.len(),
        trim_start(s) == s.subrange(s.len() - trim_start(s).len(), s.len() as int),
        trim_start(s).len() > 0 ==> !is_space(trim_start(s)[0]),
    decreases s.len(),
{
    if s.len() > 0 && is_space(s[0]) {
        lemma_trim_start_suffix(s.drop_first());
        assert(s.drop_first().subrange(
            s.drop_first().len() - trim_start(s).len(),
            s.drop_first().len() as int,
        ) =~= s.subrange(s.len() - trim_start(s).len(), s.len() as int));
    } else {
        assert(s.subrange(0, s.len() as int) =~= s);
    }
}

proof fn lemma_word_len(s: Seq<char>)
    ensures
        word_len(s) <= s.len(),
        forall|j: int| 0 <= j < word_len(s) ==> !is_space(#[trigger] s[j]),
        word_len(s) < s.len() ==> is_space(s[word_len(s) as int]),
    decreases s.len(),
{
    if s.len() > 0 && !is_space(s[0]) {
        lemma_word_len(s.drop_first());
        assert forall|j: int| 0 <= j < word_len(s) implies !is_space(#[trigger] s[j]) by {
            if j > 0 {
                assert(s[j] == s.drop_first()[j - 1]);
            }
        }
    }
}

/// The whitespace-separated words of `v`, as `words` states them.
pub fn split_words(v: &Vec<char>) -> (r: Vec<Vec<char>>)
    ensures
        views(r@) == words(v@),
{
    let n = v.len();
    let mut r: Vec<Vec<char>> = Vec::new();
    let mut i: usize = 0;
    proof {
        assert(v@.subrange(0, n as int) =~= v@);
        assert(views(r@) + words(v@) =~= words(v@));
    }
    while i < n
        invariant
            i <= n == v@.len(),
            views(r@) + words(v@.subrange(i as int, n as int)) == words(v@),
        decreases n - i,
    {
        let ghost s0 = v@.subrange(i as int, n as int);
        let mut a: usize = i;
        while a < n && space(v[a])
            invariant
                i <= a <= n == v@.len(),
                s0 == v@.subrange(i as int, n as int),
                trim_start(s0) == trim_start(v@.subrange(a as int, n as int)),
            decreases n - a,
        {
            proof {
                assert(v@.subrange(a as int, n as int).drop_first() =~= v@.subrange(
                    a + 1,
                    n as int,
                ));
            }
            a = a + 1;
        }
        let ghost t = v@.subrange(a as int, n as int);
        proof {
            if a < n {
                assert(!is_space(t[0]));
            }
            assert(trim_start(t) == t);
        }
        if a == n {
            proof {
                assert(t.len() == 0);
                assert(trim_start(s0).len() == 0);
                assert(views(r@) + words(v@.subrange(n as int, n as int)) =~= views(r@) + words(s0));
            }
            i = n;
        } else {
            let mut b: usize = a;
            proof {
                assert(v@.subrange(a as int, n as int) =~= t);
            }
            while b < n && !space(v[b])
                invariant
                    a <= b <= n == v@.len(),
                    t == v@.subrange(a as int, n as int),
                    word_len(t) == (b - a) + word_len(v@.subrange(b as int, n as int)),
                decreases n - b,
            {
                proof {
                    assert(v@.subrange(b as int, n as int).drop_first() =~= v@.subrange(
                        b + 1,
                        n as int,
                    ));
                }
                b = b + 1;
            }
            proof {
                assert(word_len(v@.subrange(b as int, n as int)) == 0);
                assert(t.subrange(0, b - a) =~= v@.subrange(a as int, b as int));
                assert(t.subrange(b - a, t.len() as int) =~= v@.subrange(b as int, n as int));
                lemma_trim_start_suffix(s0);
                lemma_word_len(t);
            }
            let w = slice(v, a, b);
            let ghost before = views(r@);
            r.push(w);
            proof {
                assert(views(r@) =~= before.push(w@));
                assert(views(r@) + words(v@.subrange(b as int, n as int)) =~= before + words(s0));
            }
            i = b;
        }
    }
    proof {
        assert(v@.subrange(i as int, n as int) =~= Seq::<char>::empty());
        assert(trim_start(Seq::<char>::empty()) =~= Seq::<char>::empty());
        assert(words(Seq::<char>::empty()) =~= Seq::<Seq<char>>::empty());
        assert(views(r@) + Seq::<Seq<char>>::empty() =~= views(r@));
    }
    r
}

/// `lines` joined with a newline between each two.
pub open spec fn joined(ls: Seq<Seq<char>>) -> Seq<char>
    decreases ls.len(),
{
    if ls.len() == 0 {
        Seq::empty()
    } else if ls.len() == 1 {
        ls[0]
    } else {
        joined(ls.drop_last()) + seq!['\n'] + ls.last()
    }
}

/// The lines of `ls` joined with newlines, as `joined` states it.
pub fn join_lines(ls: &Vec<Vec<char>>) -> (r: String)
    ensures
        r@ == joined(views(ls@)),
{
    let mut out: Vec<char> = Vec::new();
    let mut i: usize = 0;
    while i < ls.len()
        invariant
            i <= ls@.len(),
            out@ == joined(views(ls@).subrange(0, i as int)),
        decreases ls@.len() - i,
    {
        proof {
            let lv = views(ls@);
            assert(lv.subrange(0, i + 1).drop_last() =~= lv.subrange(0, i as int));
            assert(lv.subrange(0, i + 1).last() == ls@[i as int]@);
        }
        if i > 0 {
            out.push('\n');
        }
        push_all(&mut out, &ls[i]);
        i = i + 1;
    }
    proof {
        assert(views(ls@).subrange(0, i as int) =~= views(ls@));
    }
    string_of(&out)
}

/// `s` padded on the right with spaces to at least `w` characters.
pub open spec fn padded(s: Seq<char>, w: nat) -> Seq<char> {
    if s.len() >= w {
        s
    } else {
        s + Seq::new((w - s.len()) as nat, |i: int| ' ')
    }
}

/// Appends `s` padded on the right with spaces to at least `w` characters.
pub fn push_padded(dst: &mut Vec<char>, s: &str, w: usize)
    ensures
        final(dst)@ == old(dst)@ + padded(s@, w as nat),
{
    let cs = chars_of(s);
    let ghost start = dst@;
    push_all(dst, &cs);
    let mut k: usize = cs.len();
    while k < w
        invariant
            cs@ == s@,
            cs@.len() <= k,
            k <= w || k == cs@.len(),
            dst@ == start + cs@ + Seq::new((k - cs@.len()) as nat, |i: int| ' '),
        decreases w - k,
    {
        dst.push(' ');
        k = k + 1;
        assert(dst@ =~= start + cs@ + Seq::new((k - cs@.len()) as nat, |i: int| ' '));
    }
    proof {
        if cs@.len() >= w {
            assert(Seq::new((k - cs@.len()) as nat, |i: int| ' ') =~= Seq::<char>::empty());
            assert(dst@ =~= start + cs@);
        } else {
            assert(k == w);
        }
    }
}

/// The decimal digits of `n`.
pub open spec fn decimal(n: nat) -> Seq<char>
    decreases n,
{
    if n < 10 {
        seq![digit_char(n)]
    } else {
        decimal(n / 10).push(digit_char(n % 10))
    }
}

/// The decimal digit for `d`, which is below 10.
pub open spec fn digit_char(d: nat) -> char {
    ((d + 48) as u8) as char
}

/// The decimal digits of `n`, as `decimal` states them.
pub fn decimal_of(n: usize) -> (r: Vec<char>)
    ensures
        r@ == decimal(n as nat),
    decreases n,
{
    if n < 10 {
        vec![((n + 48) as u8) as char]
    } else {
        let mut v = decimal_of(n / 10);
        v.push((((n % 10) + 48) as u8) as char);
        v
    }
}

/// `c` with an ASCII capital made lowercase.
pub open spec fn ascii_lower(c: char) -> char {
    if 'A' <= c && c <= 'Z' {
        ((c as u8) + 32) as char
    } else {
        c
    }
}

/// `s` with its ASCII capitals made lowercase.
pub fn lowercase_ascii(s: &str) -> (r: Vec<char>)
    ensures
        r@ == s@.map_values(|c: char| ascii_lower(c)),
{
    let cs = chars_of(s);
    let mut out: Vec<char> = Vec::new();
    let mut i: usize = 0;
    while i < cs.len()
        invariant
            i <= cs@.len(),
            cs@ == s@,
            out@ == cs@.subrange(0, i as int).map_values(|c: char| ascii_lower(c)),
        decreases cs@.len() - i,
    {
        let c = cs[i];
        let l = if 'A' <= c && c <= 'Z' {
            ((c as u8) + 32) as char
        } else {
            c
        };
        out.push(l);
        i = i + 1;
        assert(out@ =~= cs@.subrange(0, i as int).map_values(|c: char| ascii_lower(c)));
    }
    assert(cs@.subrange(0, i as int) =~= cs@);
    out
}

/// The value of the decimal digits `s`.
pub open spec fn digits_value(s: Seq<char>) -> nat
    decreases s.len(),
{
    if s.len() == 0 {
        0
    } else {
        digits_value(s.drop_last()) * 10 + ((s.last() as nat) - ('0' as nat)) as nat
    }
}

/// Whether `s` is made of ASCII digits only.
pub open spec fn all_digits(s: Seq<char>) -> bool {
    forall|i: int| 0 <= i < s.len() ==> '0' <= #[trigger] s[i] && s[i] <= '9'
}

/// The `u32` that `s` spells as `str::parse` reads it: an optional `+`, then one or more
/// decimal digits, whose value fits.
pub open spec fn parsed_u32(s: Seq<char>) -> Option<u32> {
    let d = if s.len() > 0 && s[0] == '+' {
        s.drop_first()
    } else {
        s
    };
    if d.len() > 0 && all_digits(d) && digits_value(d) <= u32::MAX {
        Some(digits_value(d) as u32)
    } else {
        None
    }
}

/// Read `s` as a `u32`, as `parsed_u32` states it.
pub fn parse_u32(s: &str) -> (r: Option<u32>)
    ensures
        r == parsed_u32(s@),
{
    let cs = chars_of(s);
    let start: usize = if cs.len() > 0 && cs[0] == '+' {
        1
    } else {
        0
    };
    let ghost d = if s@.len() > 0 && s@[0] == '+' {
        s@.drop_first()
    } else {
        s@
    };
    proof {
        assert(cs@.subrange(start as int, cs@.len() as int) =~= d);
    }
    if start == cs.len() {
        return None;
    }
    let mut v: u64 = 0;
    let mut i: usize = start;
    while i < cs.len()
        invariant
            start <= i <= cs@.len(),
            cs@ == s@,
            d == cs@.subrange(start as int, cs@.len() as int),
            d == (if s@.len() > 0 && s@[0] == '+' {
                s@.drop_first()
            } else {
                s@
            }),
            all_digits(cs@.subrange(start as int, i as int)),
            v as nat == digits_value(cs@.subrange(start as int, i as int)),
            v <= u32::MAX,
        decreases cs@.len() - i,
    {
        let c = cs[i];
        if !('0' <= c && c <= '9') {
            proof {
                assert(d[i - start] == c);
                if all_digits(d) {
                    assert('0' <= d[i - start] && d[i - start] <= '9');
                }
            }
            return None;
        }
        let nv: u64 = v * 10 + ((c as u32) - 48) as u64;
        proof {
            assert(cs@.subrange(start as int, i + 1).drop_last() =~= cs@.subrange(start as int, i as int));
            assert(cs@.subrange(start as int, i + 1).last() == c);
        }
        if nv > 4294967295 {
            proof {
                assert(d.subrange(0, (i + 1 - start) as int) =~= cs@.subrange(start as int, i + 1));
                if all_digits(d) {
                    lemma_digits_value_grows(d, (i + 1 - start) as int);
                }
            }
            return None;
        }
        v = nv;
        i = i + 1;
        proof {
            assert forall|k: int| 0 <= k < cs@.subrange(start as int, i as int).len() implies '0'
                <= #[trigger] cs@.subrange(start as int, i as int)[k] && cs@.subrange(
                start as int,
                i as int,
            )[k] <= '9' by {
                if k < i - 1 - start {
                    assert(cs@.subrange(start as int, i as int)[k] == cs@.subrange(
                        start as int,
                        i - 1,
                    )[k]);
                }
            }
        }
    }
    Some(v as u32)
}

/// A longer run of digits is worth at least as much as its prefix.
proof fn lemma_digits_value_grows(d: Seq<char>, k: int)
    requires
        0 <= k <= d.len(),
        all_digits(d),
    ensures
        digits_value(d) >= digits_value(d.subrange(0, k)),
    decreases d.len(),
{
    if k < d.len() {
        assert(d.drop_last() =~= d.subrange(0, d.len() - 1));
        assert(d.subrange(0, d.len() - 1).subrange(0, k) =~= d.subrange(0, k));
        assert(all_digits(d.drop_last()));
        lemma_digits_value_grows(d.drop_last(), k);
    } else {
        assert(d.subrange(0, k) =~= d);
    }
}

/// `s` without its trailing slashes.
pub open spec fn trim_slashes(s: Seq<char>) -> Seq<char>
    decreases s.len(),
{
    if s.len() > 0 && s.last() == '/' {
        trim_slashes(s.drop_last())
    } else {
        s
    }
}

/// The characters of `v` without its trailing slashes.
pub fn trim_trailing_slashes(v: &Vec<char>) -> (r: Vec<char>)
    ensures
        r@ == trim_slashes(v@),
{
    let mut n = v.len();
    proof {
        assert(v@.subrange(0, n as int) =~= v@);
    }
    while n > 0 && v[n - 1] == '/'
        invariant
            n <= v@.len(),
            trim_slashes(v@) == trim_slashes(v@.subrange(0, n as int)),
        decreases n,
    {
        proof {
            assert(v@.subrange(0, n as int).drop_last() =~= v@.subrange(0, n - 1));
        }
        n = n - 1;
    }
    slice(v, 0, n)
}

} // verus!
