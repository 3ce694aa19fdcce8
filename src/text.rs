//! Search, split and join over character sequences, with the semantics of
//! `str::find`, `str::rfind`, `str::split` and `[&str]::join` stated as spec
//! functions.

use vstd::prelude::*;

verus! {

/// `n` occurs in `h` starting at position `i`.
pub open spec fn occurs_at(h: Seq<char>, n: Seq<char>, i: int) -> bool {
    0 <= i && i + n.len() <= h.len() && h.subrange(i, i + n.len()) == n
}

/// The first position at or after `i` where `n` occurs in `h`, or -1.
pub open spec fn find_from(h: Seq<char>, n: Seq<char>, i: int) -> int
    decreases h.len() + 1 - i,
{
    if i < 0 || i + n.len() > h.len() {
        -1
    } else if occurs_at(h, n, i) {
        i
    } else {
        find_from(h, n, i + 1)
    }
}

/// The last position below `k` where `n` occurs in `h`, or -1.
pub open spec fn find_below(h: Seq<char>, n: Seq<char>, k: int) -> int
    decreases k,
{
    if k <= 0 {
        -1
    } else if occurs_at(h, n, k - 1) {
        k - 1
    } else {
        find_below(h, n, k - 1)
    }
}

/// The last position where `n` occurs in `h`, or -1.
pub open spec fn find_last_spec(h: Seq<char>, n: Seq<char>) -> int {
    find_below(h, n, h.len() + 1 as int)
}

/// The pieces of `s` between the non-overlapping occurrences of `sep`, found
/// from left to right (never empty: a string without `sep` is one piece).
pub open spec fn split_seq(s: Seq<char>, sep: Seq<char>) -> Seq<Seq<char>>
    decreases s.len(),
{
    let i = find_from(s, sep, 0);
    if sep.len() > 0 && 0 <= i && i + sep.len() <= s.len() {
        seq![s.subrange(0, i)] + split_seq(s.subrange(i + sep.len(), s.len() as int), sep)
    } else {
        seq![s]
    }
}

/// The pieces concatenated, with `sep` between consecutive pieces.
pub open spec fn join_seq(pieces: Seq<Seq<char>>, sep: Seq<char>) -> Seq<char>
    decreases pieces.len(),
{
    if pieces.len() == 0 {
        Seq::empty()
    } else if pieces.len() == 1 {
        pieces[0]
    } else {
        join_seq(pieces.drop_last(), sep) + sep + pieces.last()
    }
}

/// `s` with every occurrence of `pat` taken out, as `str::replace(pat, "")`.
pub open spec fn remove_all_spec(s: Seq<char>, pat: Seq<char>) -> Seq<char> {
    join_seq(split_seq(s, pat), Seq::empty())
}

/// A position returned by `find_from` is an occurrence.
pub proof fn lemma_find_from_occurs(h: Seq<char>, n: Seq<char>, i: int)
    ensures
        find_from(h, n, i) == -1 || (i <= find_from(h, n, i) && occurs_at(
            h,
            n,
            find_from(h, n, i),
        )),
    decreases h.len() + 1 - i,
{
    if i < 0 || i + n.len() > h.len() {
    } else if occurs_at(h, n, i) {
    } else {
        lemma_find_from_occurs(h, n, i + 1);
    }
}

/// Relies on `str::chars`: the characters of `s`, in order.
#[verifier::external_body]
pub(crate) fn chars_of(s: &str) -> (r: Vec<char>)
    ensures
        r@ == s@,
{
    s.chars().collect()
}

/// Relies on `String`'s `FromIterator<&char>`: the string of these characters.
#[verifier::external_body]
pub(crate) fn string_of(v: &Vec<char>) -> (r: String)
    ensures
        r@ == v@,
{
    v.iter().collect()
}

/// Whether `n` occurs in `h` at position `i`.
pub fn matches_at(h: &Vec<char>, n: &Vec<char>, i: usize) -> (r: bool)
    ensures
        r == occurs_at(h@, n@, i as int),
{
    if i > h.len() || n.len() > h.len() - i {
        return false;
    }
    let mut j: usize = 0;
    while j < n.len()
        invariant
            j <= n.len(),
            i + n.len() <= h.len(),
            forall|k: int| 0 <= k < j ==> h@[i + k] == n@[k],
        decreases n.len() - j,
    {
        if h[i + j] != n[j] {
            assert(h@.subrange(i as int, i + n.len())[j as int] != n@[j as int]);
            return false;
        }
        j += 1;
    }
    assert(h@.subrange(i as int, i + n.len()) =~= n@);
    true
}

/// The first occurrence of `n` in `h` at or after `from`.
pub fn find_first(h: &Vec<char>, n: &Vec<char>, from: usize) -> (r: Option<usize>)
    ensures
        match r {
            Some(i) => i as int == find_from(h@, n@, from as int),
            None => find_from(h@, n@, from as int) == -1,
        },
{
    let mut i: usize = from;
    while i <= h.len() && n.len() <= h.len() - i
        invariant
            from <= i,
            find_from(h@, n@, from as int) == find_from(h@, n@, i as int),
        decreases h.len() + 1 - i,
    {
        if matches_at(h, n, i) {
            return Some(i);
        }
        assert(n@.len() > 0) by {
            if n@.len() == 0 {
                assert(h@.subrange(i as int, i as int) =~= n@);
            }
        }
        i += 1;
    }
    None
}

/// The last occurrence of `n` in `h`.
pub fn find_last(h: &Vec<char>, n: &Vec<char>) -> (r: Option<usize>)
    ensures
        match r {
            Some(i) => i as int == find_last_spec(h@, n@),
            None => find_last_spec(h@, n@) == -1,
        },
{
    let mut k: usize = h.len();
    loop
        invariant
            k <= h.len(),
            find_last_spec(h@, n@) == find_below(h@, n@, k + 1),
        decreases k,
    {
        if matches_at(h, n, k) {
            return Some(k);
        }
        if k == 0 {
            assert(find_below(h@, n@, 0) == -1);
            return None;
        }
        k -= 1;
    }
}

/// The characters of `s` from `a` to `b`.
pub fn slice_chars(s: &Vec<char>, a: usize, b: usize) -> (r: Vec<char>)
    requires
        a <= b <= s@.len(),
    ensures
        r@ == s@.subrange(a as int, b as int),
{
    let mut r: Vec<char> = Vec::new();
    let mut i: usize = a;
    while i < b
        invariant
            a <= i <= b <= s@.len(),
            r@ == s@.subrange(a as int, i as int),
        decreases b - i,
    {
        r.push(s[i]);
        i += 1;
        assert(r@ =~= s@.subrange(a as int, i as int));
    }
    r
}

/// Appends the characters of `w` to `v`.
pub fn push_all(v: &mut Vec<char>, w: &Vec<char>)
    ensures
        final(v)@ == old(v)@ + w@,
{
    let mut i: usize = 0;
    while i < w.len()
        invariant
            i <= w.len(),
            v@ == old(v)@ + w@.subrange(0, i as int),
        decreases w.len() - i,
    {
        v.push(w[i]);
        i += 1;
        assert(v@ =~= old(v)@ + w@.subrange(0, i as int));
    }
    assert(w@.subrange(0, w@.len() as int) =~= w@);
}

/// The pieces of `s` between the occurrences of `sep`, as `str::split`.
pub fn split_on(s: &Vec<char>, sep: &Vec<char>) -> (r: Vec<Vec<char>>)
    requires
        sep@.len() > 0,
    ensures
        r@.map_values(|p: Vec<char>| p@) == split_seq(s@, sep@),
{
    let mut out: Vec<Vec<char>> = Vec::new();
    let mut start: usize = 0;
    assert(s@.subrange(0, s@.len() as int) =~= s@);
    assert(out@.map_values(|p: Vec<char>| p@) =~= Seq::<Seq<char>>::empty());
    loop
        invariant
            start <= s@.len(),
            sep@.len() > 0,
            out@.map_values(|p: Vec<char>| p@) + split_seq(
                s@.subrange(start as int, s@.len() as int),
                sep@,
            ) == split_seq(s@, sep@),
        decreases s@.len() - start,
    {
        let ghost rest = s@.subrange(start as int, s@.len() as int);
        let found = find_first(s, sep, start);
        proof {
            lemma_find_from_shift(s@, sep@, start as int);
        }
        match found {
            Some(i) => {
                proof {
                    lemma_find_from_occurs(s@, sep@, start as int);
                    assert(occurs_at(s@, sep@, i as int));
                    assert(rest.subrange(0, i - start) =~= s@.subrange(start as int, i as int));
                    assert(rest.subrange(i - start + sep@.len(), rest.len() as int) =~= s@.subrange(
                        i + sep@.len(),
                        s@.len() as int,
                    ));
                }
                let piece = slice_chars(s, start, i);
                let ghost before = out@.map_values(|p: Vec<char>| p@);
                out.push(piece);
                assert(out@.map_values(|p: Vec<char>| p@) =~= before.push(piece@));
                let total = s.len();
                assert(i + sep@.len() <= total);
                start = i + sep.len();
            },
            None => {
                let piece = slice_chars(s, start, s.len());
                let ghost before = out@.map_values(|p: Vec<char>| p@);
                out.push(piece);
                assert(out@.map_values(|p: Vec<char>| p@) =~= before.push(piece@));
                assert(before.push(piece@) =~= before + split_seq(rest, sep@));
                return out;
            },
        }
    }
}

/// Searching from `start` in `h` is searching from 0 in the suffix of `h`
/// at `start`, shifted by `start`.
pub proof fn lemma_find_from_shift(h: Seq<char>, n: Seq<char>, start: int)
    requires
        0 <= start <= h.len(),
    ensures
        find_from(h, n, start) == -1 <==> find_from(h.subrange(start, h.len() as int), n, 0)
            == -1,
        find_from(h, n, start) != -1 ==> find_from(h, n, start) - start == find_from(
            h.subrange(start, h.len() as int),
            n,
            0,
        ),
{
    lemma_find_from_shift_at(h, n, start, start);
}

proof fn lemma_find_from_shift_at(h: Seq<char>, n: Seq<char>, start: int, i: int)
    requires
        0 <= start <= i,
        start <= h.len(),
    ensures
        find_from(h, n, i) == -1 <==> find_from(h.subrange(start, h.len() as int), n, i - start)
            == -1,
        find_from(h, n, i) != -1 ==> find_from(h, n, i) - start == find_from(
            h.subrange(start, h.len() as int),
            n,
            i - start,
        ),
    decreases h.len() + 1 - i,
{
    let t = h.subrange(start, h.len() as int);
    if i + n.len() > h.len() {
    } else {
        assert(h.subrange(i, i + n.len()) =~= t.subrange(i - start, i - start + n.len()));
        if !occurs_at(h, n, i) {
            lemma_find_from_shift_at(h, n, start, i + 1);
        }
    }
}

/// The pieces joined with `sep` between them, as `[&str]::join`.
pub fn join_with(pieces: &Vec<Vec<char>>, sep: &Vec<char>) -> (r: Vec<char>)
    ensures
        r@ == join_seq(pieces@.map_values(|p: Vec<char>| p@), sep@),
{
    let ghost views = pieces@.map_values(|p: Vec<char>| p@);
    let mut r: Vec<char> = Vec::new();
    let mut i: usize = 0;
    while i < pieces.len()
        invariant
            i <= pieces@.len(),
            views == pieces@.map_values(|p: Vec<char>| p@),
            r@ == join_seq(views.subrange(0, i as int), sep@),
        decreases pieces.len() - i,
    {
        assert(views.subrange(0, i + 1).drop_last() =~= views.subrange(0, i as int));
        if i > 0 {
            push_all(&mut r, sep);
        }
        push_all(&mut r, &pieces[i]);
        i += 1;
        assert(r@ =~= join_seq(views.subrange(0, i as int), sep@));
    }
    assert(views.subrange(0, i as int) =~= views);
    r
}

/// `s` with every occurrence of `pat` removed.
pub fn remove_all(s: &Vec<char>, pat: &Vec<char>) -> (r: Vec<char>)
    requires
        pat@.len() > 0,
    ensures
        r@ == remove_all_spec(s@, pat@),
{
    let pieces = split_on(s, pat);
    let empty: Vec<char> = Vec::new();
    assert(empty@ =~= Seq::<char>::empty());
    join_with(&pieces, &empty)
}

/// `s` up to the first occurrence of `pat`, or all of `s` when it has none.
pub open spec fn before_first(s: Seq<char>, pat: Seq<char>) -> Seq<char> {
    let i = find_from(s, pat, 0);
    if i < 0 {
        s
    } else {
        s.subrange(0, i)
    }
}

/// `s` up to the first occurrence of `pat`, if it has one.
pub open spec fn before_found(s: Seq<char>, pat: Seq<char>) -> Option<Seq<char>> {
    let i = find_from(s, pat, 0);
    if i < 0 {
        None
    } else {
        Some(s.subrange(0, i))
    }
}

/// `pat` occurs somewhere in `s`.
pub open spec fn contains_seq(s: Seq<char>, pat: Seq<char>) -> bool {
    find_from(s, pat, 0) >= 0
}

/// `s` after the first occurrence of `pat`, if it has one.
pub open spec fn after_first(s: Seq<char>, pat: Seq<char>) -> Option<Seq<char>> {
    let i = find_from(s, pat, 0);
    if i < 0 {
        None
    } else {
        Some(s.subrange(i + pat.len(), s.len() as int))
    }
}

/// `s` after the last occurrence of `pat`, if it has one.
pub open spec fn after_last(s: Seq<char>, pat: Seq<char>) -> Option<Seq<char>> {
    let i = find_last_spec(s, pat);
    if i < 0 {
        None
    } else {
        Some(s.subrange(i + pat.len(), s.len() as int))
    }
}

/// `s` before the last occurrence of `pat`, if it has one.
pub open spec fn before_last(s: Seq<char>, pat: Seq<char>) -> Option<Seq<char>> {
    let i = find_last_spec(s, pat);
    if i < 0 {
        None
    } else {
        Some(s.subrange(0, i))
    }
}

/// A position returned by `find_below` is an occurrence.
pub proof fn lemma_find_below_occurs(h: Seq<char>, n: Seq<char>, k: int)
    ensures
        find_below(h, n, k) == -1 || occurs_at(h, n, find_below(h, n, k)),
    decreases k,
{
    if k > 0 && !occurs_at(h, n, k - 1) {
        lemma_find_below_occurs(h, n, k - 1);
    }
}

/// `s` up to the first occurrence of `pat`.
pub fn before_first_of(s: &Vec<char>, pat: &Vec<char>) -> (r: Vec<char>)
    ensures
        r@ == before_first(s@, pat@),
{
    match find_first(s, pat, 0) {
        Some(i) => {
            proof {
                lemma_find_from_occurs(s@, pat@, 0);
            }
            slice_chars(s, 0, i)
        },
        None => slice_chars(s, 0, s.len()),
    }
}

/// `s` up to the first occurrence of `pat`, if it has one.
pub fn before_found_of(s: &Vec<char>, pat: &Vec<char>) -> (r: Option<Vec<char>>)
    ensures
        r matches Some(v) ==> before_found(s@, pat@) == Some(v@),
        r is None ==> before_found(s@, pat@) is None,
{
    match find_first(s, pat, 0) {
        Some(i) => {
            proof {
                lemma_find_from_occurs(s@, pat@, 0);
            }
            Some(slice_chars(s, 0, i))
        },
        None => None,
    }
}

/// Whether `pat` occurs in `s`.
pub fn contains_of(s: &Vec<char>, pat: &Vec<char>) -> (r: bool)
    ensures
        r == contains_seq(s@, pat@),
{
    find_first(s, pat, 0).is_some()
}

/// `s` after the first occurrence of `pat`.
pub fn after_first_of(s: &Vec<char>, pat: &Vec<char>) -> (r: Option<Vec<char>>)
    ensures
        r matches Some(v) ==> after_first(s@, pat@) == Some(v@),
        r is None ==> after_first(s@, pat@) is None,
{
    match find_first(s, pat, 0) {
        Some(i) => {
            proof {
                lemma_find_from_occurs(s@, pat@, 0);
            }
            let total = s.len();
            assert(i + pat@.len() <= total);
            Some(slice_chars(s, i + pat.len(), total))
        },
        None => None,
    }
}

/// `s` after the last occurrence of `pat`.
pub fn after_last_of(s: &Vec<char>, pat: &Vec<char>) -> (r: Option<Vec<char>>)
    ensures
        r matches Some(v) ==> after_last(s@, pat@) == Some(v@),
        r is None ==> after_last(s@, pat@) is None,
{
    match find_last(s, pat) {
        Some(i) => {
            proof {
                lemma_find_below_occurs(s@, pat@, s@.len() + 1 as int);
            }
            let total = s.len();
            assert(i + pat@.len() <= total);
            Some(slice_chars(s, i + pat.len(), total))
        },
        None => None,
    }
}

/// `s` before the last occurrence of `pat`.
pub fn before_last_of(s: &Vec<char>, pat: &Vec<char>) -> (r: Option<Vec<char>>)
    ensures
        r matches Some(v) ==> before_last(s@, pat@) == Some(v@),
        r is None ==> before_last(s@, pat@) is None,
{
    match find_last(s, pat) {
        Some(i) => {
            proof {
                lemma_find_below_occurs(s@, pat@, s@.len() + 1 as int);
            }
            Some(slice_chars(s, 0, i))
        },
        None => None,
    }
}

} // verus!
