//! Character-level text operations: white space, trimming, substring search,
//! splitting on a delimiter and replacing a pattern.
//!
//! Every operation is specified over `Seq<char>`; the executable versions work
//! on a `Vec<char>` copy of the text so that indexing is constant time.

use vstd::prelude::*;
use vstd::string::StringExecFns;
use vstd::string::StrSliceExecFns;

verus! {

/// White space as Unicode defines it (the `White_Space` property).
pub open spec fn is_space(c: char) -> bool {
    ||| ('\u{9}' <= c && c <= '\u{d}')
    ||| c == ' '
    ||| c == '\u{85}'
    ||| c == '\u{a0}'
    ||| c == '\u{1680}'
    ||| ('\u{2000}' <= c && c <= '\u{200a}')
    ||| c == '\u{2028}'
    ||| c == '\u{2029}'
    ||| c == '\u{202f}'
    ||| c == '\u{205f}'
    ||| c == '\u{3000}'
}

/// `s` without its leading white space.
pub open spec fn trim_start(s: Seq<char>) -> Seq<char>
    decreases s.len(),
{
    if s.len() > 0 && is_space(s[0]) {
        trim_start(s.drop_first())
    } else {
        s
    }
}

/// `s` without its trailing white space.
pub open spec fn trim_end(s: Seq<char>) -> Seq<char>
    decreases s.len(),
{
    if s.len() > 0 && is_space(s.last()) {
        trim_end(s.drop_last())
    } else {
        s
    }
}

/// `s` without leading and trailing white space.
pub open spec fn trim(s: Seq<char>) -> Seq<char> {
    trim_end(trim_start(s))
}

/// Whether `pat` occurs in `s` at index `i`.
pub open spec fn occurs_at(s: Seq<char>, pat: Seq<char>, i: int) -> bool {
    0 <= i && i + pat.len() <= s.len() && s.subrange(i, i + pat.len()) =~= pat
}

/// The index of the leftmost occurrence of `pat` in `s` at or after `from`.
pub open spec fn first_occurrence_from(s: Seq<char>, pat: Seq<char>, from: int) -> Option<int>
    decreases s.len() - from,
{
    if from < 0 || from + pat.len() > s.len() {
        None
    } else if occurs_at(s, pat, from) {
        Some(from)
    } else {
        first_occurrence_from(s, pat, from + 1)
    }
}

/// The index of the leftmost occurrence of `pat` in `s`.
pub open spec fn first_occurrence(s: Seq<char>, pat: Seq<char>) -> Option<int> {
    first_occurrence_from(s, pat, 0)
}

/// Whether `pat` occurs somewhere in `s`.
pub open spec fn contains(s: Seq<char>, pat: Seq<char>) -> bool {
    first_occurrence(s, pat) is Some
}

/// The pieces of `s`, read from index `from`, between the non-overlapping
/// occurrences of the non-empty delimiter `delim`, found from left to right.
pub open spec fn split_from(s: Seq<char>, delim: Seq<char>, from: int) -> Seq<Seq<char>>
    decreases s.len() - from,
{
    match first_occurrence_from(s, delim, from) {
        Some(i) if delim.len() > 0 && from <= i && i + delim.len() <= s.len() => seq![
            s.subrange(from, i),
        ] + split_from(s, delim, i + delim.len()),
        _ => seq![s.subrange(from, s.len() as int)],
    }
}

/// The pieces into which `delim` cuts `s`. An empty delimiter cuts between
/// every two characters and at both ends.
pub open spec fn split_on(s: Seq<char>, delim: Seq<char>) -> Seq<Seq<char>> {
    if delim.len() == 0 {
        seq![Seq::<char>::empty()] + Seq::new(s.len(), |i: int| seq![s[i]]) + seq![
            Seq::<char>::empty(),
        ]
    } else {
        split_from(s, delim, 0)
    }
}

/// `s`, read from index `start`, with every non-overlapping occurrence of the
/// non-empty pattern `from`, found from left to right, replaced by `to`.
pub open spec fn replace_from(s: Seq<char>, from: Seq<char>, to: Seq<char>, start: int) -> Seq<
    char,
>
    decreases s.len() - start,
{
    match first_occurrence_from(s, from, start) {
        Some(i) if from.len() > 0 && start <= i && i + from.len() <= s.len() => s.subrange(
            start,
            i,
        ) + to + replace_from(s, from, to, i + from.len()),
        _ => s.subrange(start, s.len() as int),
    }
}

/// `to`, then each character of `s` followed by `to`.
pub open spec fn interleave(s: Seq<char>, to: Seq<char>) -> Seq<char>
    decreases s.len(),
{
    if s.len() == 0 {
        to
    } else {
        to + seq![s[0]] + interleave(s.drop_first(), to)
    }
}

/// `s` with every occurrence of the pattern `from` replaced by `to`. An
/// empty pattern occurs before every character and at the end.
pub open spec fn replace_all(s: Seq<char>, from: Seq<char>, to: Seq<char>) -> Seq<char> {
    if from.len() == 0 {
        interleave(s, to)
    } else {
        replace_from(s, from, to, 0)
    }
}

/// What `first_occurrence_from` returns lies in range and is an occurrence,
/// and nothing between `from` and it is one.
pub proof fn lemma_first_occurrence_from(s: Seq<char>, pat: Seq<char>, from: int)
    requires
        0 <= from,
    ensures
        match first_occurrence_from(s, pat, from) {
            Some(i) => from <= i && occurs_at(s, pat, i) && forall|j: int|
                from <= j < i ==> !occurs_at(s, pat, j),
            None => forall|j: int| from <= j ==> !occurs_at(s, pat, j),
        },
    decreases s.len() - from,
{
    if from + pat.len() > s.len() {
    } else if occurs_at(s, pat, from) {
    } else {
        lemma_first_occurrence_from(s, pat, from + 1);
    }
}

pub fn is_space_char(c: char) -> (r: bool)
    ensures
        r == is_space(c),
{
    ('\u{9}' <= c && c <= '\u{d}') || c == ' ' || c == '\u{85}' || c == '\u{a0}' || c
        == '\u{1680}' || ('\u{2000}' <= c && c <= '\u{200a}') || c == '\u{2028}' || c
        == '\u{2029}' || c == '\u{202f}' || c == '\u{205f}' || c == '\u{3000}'
}

/// The characters of `s`, in order.
pub fn to_chars(s: &str) -> (r: Vec<char>)
    ensures
        r@ == s@,
{
    let mut out: Vec<char> = Vec::new();
    for c in it: s.chars()
        invariant
            out@ == it.seq().take(it.index() as int),
            it.seq() == s@,
    {
        out.push(c);
    }
    out
}

/// Whether `pat` stands in `hay` at index `at`.
fn matches_at(hay: &Vec<char>, pat: &Vec<char>, at: usize) -> (r: bool)
    requires
        at + pat.len() <= hay.len(),
    ensures
        r == occurs_at(hay@, pat@, at as int),
{
    let mut k: usize = 0;
    while k < pat.len()
        invariant
            k <= pat.len(),
            at + pat.len() <= hay.len(),
            forall|j: int| 0 <= j < k ==> hay@[at + j] == pat@[j],
        decreases pat.len() - k,
    {
        if hay[at + k] != pat[k] {
            assert(hay@.subrange(at as int, at + pat.len())[k as int] != pat@[k as int]);
            return false;
        }
        k += 1;
    }
    assert(hay@.subrange(at as int, at + pat.len()) =~= pat@);
    true
}

/// The leftmost occurrence of `pat` in `hay` at or after `from`.
pub fn find_from(hay: &Vec<char>, pat: &Vec<char>, from: usize) -> (r: Option<usize>)
    ensures
        match r {
            Some(i) => first_occurrence_from(hay@, pat@, from as int) == Some(i as int),
            None => first_occurrence_from(hay@, pat@, from as int) is None,
        },
{
    if pat.len() > hay.len() || from > hay.len() - pat.len() {
        return None;
    }
    let last: usize = hay.len() - pat.len();
    let mut i: usize = from;
    while i <= last
        invariant
            from <= i <= last + 1,
            last == hay.len() - pat.len(),
            first_occurrence_from(hay@, pat@, from as int) == first_occurrence_from(
                hay@,
                pat@,
                i as int,
            ),
        decreases last + 1 - i,
    {
        if matches_at(hay, pat, i) {
            return Some(i);
        }
        i += 1;
    }
    None
}

/// The bounds of `v[from..to]` without its leading and trailing white space.
pub fn trim_range(v: &Vec<char>, from: usize, to: usize) -> (r: (usize, usize))
    requires
        from <= to <= v.len(),
    ensures
        from <= r.0 <= r.1 <= to,
        v@.subrange(r.0 as int, r.1 as int) == trim(v@.subrange(from as int, to as int)),
{
    let mut a: usize = from;
    while a < to && is_space_char(v[a])
        invariant
            from <= a <= to <= v.len(),
            trim_start(v@.subrange(from as int, to as int)) == trim_start(
                v@.subrange(a as int, to as int),
            ),
        decreases to - a,
    {
        assert(v@.subrange(a as int, to as int).drop_first() =~= v@.subrange(a + 1, to as int));
        a += 1;
    }
    let mut b: usize = to;
    while b > a && is_space_char(v[b - 1])
        invariant
            a <= b <= to <= v.len(),
            trim_end(v@.subrange(a as int, to as int)) == trim_end(
                v@.subrange(a as int, b as int),
            ),
        decreases b - a,
    {
        assert(v@.subrange(a as int, b as int).drop_last() =~= v@.subrange(a as int, b - 1));
        b -= 1;
    }
    (a, b)
}

/// Whether `pat` occurs somewhere in `hay`.
pub fn contains_text(hay: &str, pat: &str) -> (r: bool)
    ensures
        r == contains(hay@, pat@),
{
    let h = to_chars(hay);
    let p = to_chars(pat);
    find_from(&h, &p, 0).is_some()
}

/// `text` with every occurrence of `from` replaced by `to`.
pub fn replace_text(text: &str, from: &str, to: &str) -> (r: String)
    ensures
        r@ == replace_all(text@, from@, to@),
{
    let chars = to_chars(text);
    let pat = to_chars(from);
    let mut out = String::new();
    let mut pos: usize = 0;
    if pat.len() == 0 {
        assert(chars@.subrange(0, chars.len() as int) =~= chars@);
        assert(out@ + interleave(chars@, to@) =~= interleave(chars@, to@));
        while pos < chars.len()
            invariant
                pos <= chars.len(),
                chars@ == text@,
                out@ + interleave(chars@.subrange(pos as int, chars.len() as int), to@)
                    == interleave(text@, to@),
            decreases chars.len() - pos,
        {
            let ghost written = out@;
            let ghost rest = chars@.subrange(pos as int, chars.len() as int);
            out.append(to);
            out.append(text.substring_char(pos, pos + 1));
            proof {
                assert(rest.drop_first() =~= chars@.subrange(pos + 1, chars.len() as int));
                assert(text@.subrange(pos as int, pos + 1) =~= seq![rest[0]]);
                assert(out@ + interleave(rest.drop_first(), to@) =~= written + interleave(
                    rest,
                    to@,
                ));
            }
            pos += 1;
        }
        out.append(to);
        return out;
    }
    let mut done = false;
    assert(out@ + replace_from(chars@, pat@, to@, 0) =~= replace_from(chars@, pat@, to@, 0));
    while !done
        invariant
            pos <= chars.len(),
            pat.len() > 0,
            chars@ == text@,
            pat@ == from@,
            !done ==> out@ + replace_from(chars@, pat@, to@, pos as int) == replace_from(
                text@,
                from@,
                to@,
                0,
            ),
            done ==> out@ == replace_from(text@, from@, to@, 0),
        decreases chars.len() - pos + if done { 0int } else { 1int },
    {
        proof {
            lemma_first_occurrence_from(chars@, pat@, pos as int);
        }
        let ghost written = out@;
        match find_from(&chars, &pat, pos) {
            Some(i) => {
                out.append(text.substring_char(pos, i));
                out.append(to);
                assert(out@ + replace_from(chars@, pat@, to@, i + pat.len()) =~= written
                    + replace_from(chars@, pat@, to@, pos as int));
                pos = i + pat.len();
            },
            None => {
                out.append(text.substring_char(pos, chars.len()));
                assert(out@ =~= written + replace_from(chars@, pat@, to@, pos as int));
                done = true;
            },
        }
    }
    out
}

} // verus!
