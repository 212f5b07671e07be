//! Tag lists: a literal cut at a delimiter into trimmed, non-empty tags.

use vstd::prelude::*;
use vstd::string::StringExecFns;
use vstd::string::StrSliceExecFns;
use crate::text::find_from;
use crate::text::is_space;
use crate::text::is_space_char;
use crate::text::lemma_first_occurrence_from;
use crate::text::split_from;
use crate::text::split_on;
use crate::text::to_chars;
use crate::text::trim;
use crate::text::trim_range;
use crate::text::trim_start;

verus! {

/// What one piece contributes to a tag list: itself trimmed, unless that
/// leaves nothing.
pub open spec fn keep_one(piece: Seq<char>) -> Seq<Seq<char>> {
    if trim(piece).len() > 0 {
        seq![trim(piece)]
    } else {
        seq![]
    }
}

/// The pieces trimmed, without those that trimming leaves empty, in order.
pub open spec fn keep_tags(pieces: Seq<Seq<char>>) -> Seq<Seq<char>>
    decreases pieces.len(),
{
    if pieces.len() == 0 {
        seq![]
    } else {
        keep_one(pieces[0]) + keep_tags(pieces.drop_first())
    }
}

/// The tag list of a literal: the literal is trimmed and cut at the
/// delimiter, each piece is trimmed, and empty pieces are dropped. Tags
/// keep their order, and a tag that occurs twice is listed twice.
pub open spec fn tag_list(literal: Seq<char>, delim: Seq<char>) -> Seq<Seq<char>> {
    keep_tags(split_on(trim(literal), delim))
}

/// The texts of a list of strings, in order.
pub open spec fn texts(strings: Seq<String>) -> Seq<Seq<char>> {
    Seq::new(strings.len(), |i: int| strings[i]@)
}

/// Keeping tags goes through concatenation.
pub proof fn lemma_keep_tags_concat(x: Seq<Seq<char>>, y: Seq<Seq<char>>)
    ensures
        keep_tags(x + y) == keep_tags(x) + keep_tags(y),
    decreases x.len(),
{
    if x.len() == 0 {
        assert(x + y =~= y);
        assert(keep_tags(x) + keep_tags(y) =~= keep_tags(y));
    } else {
        lemma_keep_tags_concat(x.drop_first(), y);
        assert((x + y).drop_first() =~= x.drop_first() + y);
        assert(keep_tags(x + y) =~= keep_tags(x) + keep_tags(y));
    }
}

/// A list of one piece keeps what that piece contributes.
pub proof fn lemma_keep_tags_single(piece: Seq<char>)
    ensures
        keep_tags(seq![piece]) == keep_one(piece),
{
    assert(seq![piece].drop_first() =~= Seq::<Seq<char>>::empty());
    assert(keep_one(piece) + keep_tags(Seq::<Seq<char>>::empty()) =~= keep_one(piece));
}

/// Trimming one character leaves it, unless it is white space.
proof fn lemma_trim_single(c: char)
    ensures
        trim(seq![c]) == if is_space(c) {
            Seq::<char>::empty()
        } else {
            seq![c]
        },
{
    let s = seq![c];
    if is_space(c) {
        assert(s.drop_first() =~= Seq::<char>::empty());
        assert(trim_start(s) == trim_start(s.drop_first()));
        assert(trim_start(Seq::<char>::empty()) == Seq::<char>::empty());
    } else {
        assert(trim_start(s) == s);
        assert(s.last() == c);
    }
}

/// The characters of `v[from..to]`, copied.
fn slice_chars(v: &Vec<char>, from: usize, to: usize) -> (r: Vec<char>)
    requires
        from <= to <= v.len(),
    ensures
        r@ == v@.subrange(from as int, to as int),
{
    let mut out: Vec<char> = Vec::new();
    let mut k: usize = from;
    while k < to
        invariant
            from <= k <= to <= v.len(),
            out@ == v@.subrange(from as int, k as int),
        decreases to - k,
    {
        out.push(v[k]);
        assert(out@ =~= v@.subrange(from as int, k + 1));
        k += 1;
    }
    out
}

/// Cuts a literal into its tag list.
pub fn split_tags(literal: &str, delim: &str) -> (r: Vec<String>)
    ensures
        texts(r@) == tag_list(literal@, delim@),
{
    let chars = to_chars(literal);
    let (a, b) = trim_range(&chars, 0, chars.len());
    assert(chars@.subrange(0, chars.len() as int) =~= literal@);
    let body = slice_chars(&chars, a, b);
    let pat = to_chars(delim);
    let ghost whole = split_on(body@, pat@);
    let mut out: Vec<String> = Vec::new();
    assert(texts(out@) =~= Seq::<Seq<char>>::empty());
    if pat.len() == 0 {
        let ghost singles = Seq::new(body@.len(), |i: int| seq![body@[i]]);
        let ghost blank = seq![Seq::<char>::empty()];
        let mut k: usize = 0;
        proof {
            assert(singles.take(0) =~= Seq::<Seq<char>>::empty());
        }
        while k < body.len()
            invariant
                k <= body.len(),
                a + body.len() == b,
                b <= chars.len(),
                chars@ == literal@,
                body@ == chars@.subrange(a as int, b as int),
                singles == Seq::new(body@.len(), |i: int| seq![body@[i]]),
                texts(out@) == keep_tags(singles.take(k as int)),
            decreases body.len() - k,
        {
            let c = body[k];
            proof {
                assert(singles.take(k + 1) =~= singles.take(k as int) + seq![singles[k as int]]);
                lemma_keep_tags_concat(singles.take(k as int), seq![singles[k as int]]);
                lemma_keep_tags_single(singles[k as int]);
                lemma_trim_single(c);
            }
            let ghost shown = texts(out@);
            if !is_space_char(c) {
                let tag = String::from_str(literal.substring_char(a + k, a + k + 1));
                assert(tag@ =~= seq![c]);
                out.push(tag);
                assert(texts(out@) =~= shown + seq![seq![c]]);
            } else {
                assert(shown + Seq::<Seq<char>>::empty() =~= shown);
            }
            k += 1;
        }
        proof {
            assert(singles.take(k as int) =~= singles);
            assert(trim(Seq::<char>::empty()) == Seq::<char>::empty());
            lemma_keep_tags_single(Seq::<char>::empty());
            lemma_keep_tags_concat(blank, singles);
            lemma_keep_tags_concat(blank + singles, blank);
            assert(keep_tags(blank) + keep_tags(singles) + keep_tags(blank) =~= keep_tags(
                singles,
            ));
        }
        out
    } else {
        let mut pos: usize = 0;
        let mut done = false;
        while !done
            invariant
                pos <= body.len(),
                pat.len() > 0,
                a + body.len() == b,
                b <= chars.len(),
                chars@ == literal@,
                body@ == chars@.subrange(a as int, b as int),
                !done ==> texts(out@) + keep_tags(split_from(body@, pat@, pos as int)) == keep_tags(
                    split_from(body@, pat@, 0),
                ),
                done ==> texts(out@) == keep_tags(split_from(body@, pat@, 0)),
            decreases body.len() - pos + if done { 0int } else { 1int },
        {
            proof {
                lemma_first_occurrence_from(body@, pat@, pos as int);
            }
            let found = find_from(&body, &pat, pos);
            let stop: usize = match found {
                Some(i) => i,
                None => body.len(),
            };
            let ghost piece = body@.subrange(pos as int, stop as int);
            let ghost rest = match found {
                Some(i) => split_from(body@, pat@, i + pat.len()),
                None => Seq::<Seq<char>>::empty(),
            };
            proof {
                assert(split_from(body@, pat@, pos as int) =~= seq![piece] + rest);
                lemma_keep_tags_concat(seq![piece], rest);
                lemma_keep_tags_single(piece);
            }
            let (pa, pb) = trim_range(&body, pos, stop);
            let ghost shown = texts(out@);
            if pb > pa {
                let tag = String::from_str(literal.substring_char(a + pa, a + pb));
                assert(tag@ =~= body@.subrange(pa as int, pb as int));
                out.push(tag);
                assert(texts(out@) =~= shown + keep_one(piece));
            } else {
                assert(body@.subrange(pa as int, pb as int).len() == 0);
                assert(shown + keep_one(piece) =~= shown);
            }
            assert(texts(out@) + keep_tags(rest) =~= shown + (keep_one(piece) + keep_tags(rest)));
            match found {
                Some(i) => {
                    pos = i + pat.len();
                },
                None => {
                    assert(keep_tags(rest) =~= Seq::<Seq<char>>::empty());
                    assert(texts(out@) + keep_tags(rest) =~= texts(out@));
                    done = true;
                },
            }
        }
        out
    }
}

} // verus!
