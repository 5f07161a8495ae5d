//! The escape-aware splitter/merger.
//!
//! A string is scanned left to right and cut into alternating chunks: a
//! *plain* chunk holds no escape-sequence introducer, a *colored* chunk
//! starts at an introducer and runs through the next canonical reset
//! sequence (or to the end of the text when the reset is missing).  A
//! transform is then applied to the plain chunks only, while colored chunks
//! are copied verbatim, so text that an earlier highlighter already colored
//! is never re-processed by a later one.

use vstd::prelude::*;

use crate::highlighter::AnyHighlighter;
use crate::style::esc_intro;
use crate::style::reset_seq;

verus! {

/// `pat` occurs in `t` at position `i`.
pub open spec fn occurs_at(t: Seq<char>, pat: Seq<char>, i: int) -> bool {
    0 <= i && i + pat.len() <= t.len() && t.subrange(i, i + pat.len() as int) == pat
}

/// The first position at or after `from` where `pat` occurs in `t`.
pub open spec fn find_from(t: Seq<char>, pat: Seq<char>, from: int) -> Option<int>
    decreases t.len() - from,
{
    if from < 0 || from + pat.len() > t.len() {
        None
    } else if pat.len() == 0 || occurs_at(t, pat, from) {
        Some(from)
    } else {
        find_from(t, pat, from + 1)
    }
}

/// `find_from` returns the least occurrence at or after `from`, and `None`
/// exactly when there is none.
pub proof fn lemma_find_from(t: Seq<char>, pat: Seq<char>, from: int)
    requires
        0 <= from,
    ensures
        match find_from(t, pat, from) {
            Some(i) => from <= i && occurs_at(t, pat, i) && (forall|k: int|
                from <= k < i ==> !occurs_at(t, pat, k)),
            None => forall|k: int| from <= k ==> !occurs_at(t, pat, k),
        },
    decreases t.len() - from,
{
    if from + pat.len() > t.len() {
    } else if pat.len() == 0 {
        assert(t.subrange(from, from + pat.len() as int) =~= pat);
    } else if occurs_at(t, pat, from) {
    } else {
        lemma_find_from(t, pat, from + 1);
    }
}

/// The chunks of `t` from position `start` on, as triples of
/// (colored, start, end).  A colored chunk begins at an escape introducer
/// and ends just past the next canonical reset sequence; an unterminated
/// colored chunk runs to the end of the text.
pub open spec fn split_from(t: Seq<char>, start: int) -> Seq<(bool, int, int)>
    decreases t.len() - start,
    when 0 <= start <= t.len()
    via split_from_decreases
{
    match find_from(t, esc_intro(), start) {
        None => if start == t.len() {
            Seq::empty()
        } else {
            seq![(false, start, t.len() as int)]
        },
        Some(i) => {
            let head: Seq<(bool, int, int)> = if i > start {
                seq![(false, start, i)]
            } else {
                Seq::empty()
            };
            match find_from(t, reset_seq(), i) {
                None => head.push((true, i, t.len() as int)),
                Some(r) => head.push((true, i, r + 4)) + split_from(t, r + 4),
            }
        },
    }
}

#[via_fn]
proof fn split_from_decreases(t: Seq<char>, start: int) {
    lemma_find_from(t, esc_intro(), start);
    if let Some(i) = find_from(t, esc_intro(), start) {
        lemma_find_from(t, reset_seq(), i);
    }
}

/// The text of one chunk.
pub open spec fn chunk_text(t: Seq<char>, c: (bool, int, int)) -> Seq<char> {
    t.subrange(c.1, c.2)
}

/// The merged output: `f` over the plain chunks, colored chunks verbatim,
/// concatenated in order.
pub open spec fn apply_chunks(
    t: Seq<char>,
    cs: Seq<(bool, int, int)>,
    f: spec_fn(Seq<char>) -> Seq<char>,
) -> Seq<char>
    decreases cs.len(),
{
    if cs.len() == 0 {
        Seq::empty()
    } else {
        (if cs[0].0 {
            chunk_text(t, cs[0])
        } else {
            f(chunk_text(t, cs[0]))
        }) + apply_chunks(t, cs.drop_first(), f)
    }
}

/// What the splitter/merger produces for `t` under the plain-chunk
/// transform `f`.
pub open spec fn merge_apply(t: Seq<char>, f: spec_fn(Seq<char>) -> Seq<char>) -> Seq<char> {
    apply_chunks(t, split_from(t, 0), f)
}

/// The characters of `s`, in order.
pub fn to_chars(s: &str) -> (r: Vec<char>)
    ensures
        r@ == s@,
{
    let mut r: Vec<char> = Vec::new();
    let n = s.unicode_len();
    let mut i: usize = 0;
    while i < n
        invariant
            n == s@.len(),
            i <= n,
            r@ == s@.subrange(0, i as int),
        decreases n - i,
    {
        r.push(s.get_char(i));
        i = i + 1;
        proof {
            assert(r@ =~= s@.subrange(0, i as int));
        }
    }
    proof {
        assert(r@ =~= s@);
    }
    r
}

/// The escape-sequence introducer as characters.
pub fn intro_chars() -> (r: Vec<char>)
    ensures
        r@ == esc_intro(),
{
    let mut v: Vec<char> = Vec::new();
    v.push('\u{1b}');
    v.push('[');
    proof {
        assert(v@ =~= esc_intro());
    }
    v
}

/// The canonical reset sequence as characters.
pub fn reset_chars() -> (r: Vec<char>)
    ensures
        r@ == reset_seq(),
{
    let mut v: Vec<char> = Vec::new();
    v.push('\u{1b}');
    v.push('[');
    v.push('0');
    v.push('m');
    proof {
        assert(v@ =~= reset_seq());
    }
    v
}

/// Whether `pat` occurs in `text` at position `i`.
fn matches_at(text: &Vec<char>, pat: &Vec<char>, i: usize) -> (r: bool)
    requires
        i + pat@.len() <= text@.len(),
    ensures
        r == occurs_at(text@, pat@, i as int),
{
    let tl = text.len();
    let mut j: usize = 0;
    while j < pat.len()
        invariant
            i + pat@.len() <= text@.len(),
            tl == text@.len(),
            j <= pat@.len(),
            forall|k: int| 0 <= k < j ==> text@[i + k] == pat@[k],
        decreases pat@.len() - j,
    {
        if text[i + j] != pat[j] {
            proof {
                assert(text@.subrange(i as int, i + pat@.len()) != pat@) by {
                    assert(text@.subrange(i as int, i + pat@.len())[j as int] != pat@[j as int]);
                }
            }
            return false;
        }
        j = j + 1;
    }
    proof {
        assert(text@.subrange(i as int, i + pat@.len()) =~= pat@);
    }
    true
}

/// The first position at or after `from` where `pat` occurs in `text`.
fn find_seq(text: &Vec<char>, pat: &Vec<char>, from: usize) -> (r: Option<usize>)
    requires
        pat@.len() >= 1,
    ensures
        match r {
            Some(i) => find_from(text@, pat@, from as int) == Some(i as int),
            None => find_from(text@, pat@, from as int) is None,
        },
{
    if pat.len() > text.len() {
        return None;
    }
    let max = text.len() - pat.len();
    let mut i = from;
    while i <= max
        invariant
            from <= i,
            1 <= pat@.len() <= text@.len(),
            text@.len() <= usize::MAX,
            max == text@.len() - pat@.len(),
            find_from(text@, pat@, from as int) == find_from(text@, pat@, i as int),
        decreases max + 1 - i,
    {
        if matches_at(text, pat, i) {
            return Some(i);
        }
        i = i + 1;
    }
    None
}

/// The chunk ranges of `text`, as (colored, start, end) triples.
pub fn split_ranges(text: &Vec<char>) -> (r: Vec<(bool, usize, usize)>)
    ensures
        r@.len() == split_from(text@, 0).len(),
        forall|k: int|
            0 <= k < r@.len() ==> {
                &&& r@[k].0 == split_from(text@, 0)[k].0
                &&& r@[k].1 as int == split_from(text@, 0)[k].1
                &&& r@[k].2 as int == split_from(text@, 0)[k].2
            },
        forall|k: int|
            0 <= k < r@.len() ==> r@[k].1 <= r@[k].2 && r@[k].2 <= text@.len(),
{
    let intro = intro_chars();
    let reset = reset_chars();
    let tl = text.len();
    let mut chunks: Vec<(bool, usize, usize)> = Vec::new();
    let mut start: usize = 0;
    let mut done = false;
    while !done
        invariant
            start <= text@.len(),
            tl == text@.len(),
            intro@ == esc_intro(),
            reset@ == reset_seq(),
            done ==> split_from(text@, 0) == spec_ranges(chunks@),
            !done ==> split_from(text@, 0) == spec_ranges(chunks@) + split_from(
                text@,
                start as int,
            ),
            forall|k: int|
                0 <= k < chunks@.len() ==> chunks@[k].1 <= chunks@[k].2 && chunks@[k].2
                    <= text@.len(),
        decreases 2 * (text@.len() - start) + (if done { 0int } else { 1int }),
    {
        let ghost chunks0 = chunks@;
        let ghost start0 = start as int;
        proof {
            lemma_find_from(text@, esc_intro(), start0);
        }
        match find_seq(text, &intro, start) {
            None => {
                if start < text.len() {
                    chunks.push((false, start, text.len()));
                    proof {
                        assert(split_from(text@, start0) =~= seq![
                            (false, start0, text@.len() as int),
                        ]);
                        assert(spec_ranges(chunks@) =~= spec_ranges(chunks0) + split_from(
                            text@,
                            start0,
                        ));
                    }
                } else {
                    proof {
                        assert(split_from(text@, start0) =~= Seq::<(bool, int, int)>::empty());
                        assert(spec_ranges(chunks@) =~= spec_ranges(chunks0) + split_from(
                            text@,
                            start0,
                        ));
                    }
                }
                done = true;
            },
            Some(i) => {
                proof {
                    lemma_find_from(text@, reset_seq(), i as int);
                }
                let ghost head: Seq<(bool, int, int)> = if i as int > start0 {
                    seq![(false, start0, i as int)]
                } else {
                    Seq::empty()
                };
                if i > start {
                    chunks.push((false, start, i));
                }
                proof {
                    assert(spec_ranges(chunks@) =~= spec_ranges(chunks0) + head);
                }
                match find_seq(text, &reset, i) {
                    None => {
                        chunks.push((true, i, text.len()));
                        done = true;
                        proof {
                            assert(split_from(text@, start0) == head.push(
                                (true, i as int, text@.len() as int),
                            ));
                            assert(spec_ranges(chunks@) =~= spec_ranges(chunks0) + split_from(
                                text@,
                                start0,
                            ));
                        }
                    },
                    Some(rr) => {
                        chunks.push((true, i, rr + 4));
                        start = rr + 4;
                        proof {
                            assert(split_from(text@, start0) == head.push(
                                (true, i as int, rr + 4 as int),
                            ) + split_from(text@, rr + 4 as int));
                            assert(spec_ranges(chunks@) =~= spec_ranges(chunks0) + head.push(
                                (true, i as int, rr + 4 as int),
                            ));
                            assert(spec_ranges(chunks@) + split_from(text@, start as int)
                                =~= spec_ranges(chunks0) + split_from(text@, start0));
                        }
                    },
                }
            },
        }
    }
    chunks
}

/// The ranges a chunk vector stands for, as mathematical triples.
pub open spec fn spec_ranges(cs: Seq<(bool, usize, usize)>) -> Seq<(bool, int, int)> {
    cs.map_values(|c: (bool, usize, usize)| (c.0, c.1 as int, c.2 as int))
}

/// One chunk of a scanned string: plain text, or a section bounded by an
/// escape introducer and the canonical reset.
pub enum Chunk {
    NotHighlighted(String),
    AlreadyHighlighted(String),
}

/// `c` carries the text and the classification of the chunk `sc` of `t`.
pub open spec fn chunk_matches(c: Chunk, sc: (bool, int, int), t: Seq<char>) -> bool {
    match c {
        Chunk::NotHighlighted(s) => !sc.0 && s@ == t.subrange(sc.1, sc.2),
        Chunk::AlreadyHighlighted(s) => sc.0 && s@ == t.subrange(sc.1, sc.2),
    }
}

/// Split `input` into its alternating plain and already-colored chunks.
pub fn split_into_chunks(input: &str) -> (r: Vec<Chunk>)
    ensures
        r@.len() == split_from(input@, 0).len(),
        forall|k: int|
            0 <= k < r@.len() ==> chunk_matches(r@[k], split_from(input@, 0)[k], input@),
{
    let chars = to_chars(input);
    let ranges = split_ranges(&chars);
    let mut r: Vec<Chunk> = Vec::new();
    let mut k: usize = 0;
    while k < ranges.len()
        invariant
            chars@ == input@,
            k <= ranges@.len(),
            r@.len() == k,
            ranges@.len() == split_from(input@, 0).len(),
            forall|j: int|
                0 <= j < ranges@.len() ==> {
                    &&& ranges@[j].0 == split_from(input@, 0)[j].0
                    &&& ranges@[j].1 as int == split_from(input@, 0)[j].1
                    &&& ranges@[j].2 as int == split_from(input@, 0)[j].2
                },
            forall|j: int|
                0 <= j < ranges@.len() ==> ranges@[j].1 <= ranges@[j].2 && ranges@[j].2
                    <= input@.len(),
            forall|j: int|
                0 <= j < k ==> chunk_matches(r@[j], split_from(input@, 0)[j], input@),
        decreases ranges@.len() - k,
    {
        let c = ranges[k];
        let piece = input.substring_char(c.1, c.2).to_owned();
        if c.0 {
            r.push(Chunk::AlreadyHighlighted(piece));
        } else {
            r.push(Chunk::NotHighlighted(piece));
        }
        k = k + 1;
    }
    r
}

/// Every chunk of `t` lies between `start` and the end of the text, with a
/// nonempty range.
pub proof fn lemma_split_bounds(t: Seq<char>, start: int)
    requires
        0 <= start <= t.len(),
    ensures
        forall|k: int|
            0 <= k < split_from(t, start).len() ==> start <= #[trigger] split_from(t, start)[k].1
                && split_from(t, start)[k].1 < split_from(t, start)[k].2 && split_from(
                t,
                start,
            )[k].2 <= t.len(),
    decreases t.len() - start,
{
    lemma_find_from(t, esc_intro(), start);
    if let Some(i) = find_from(t, esc_intro(), start) {
        lemma_find_from(t, reset_seq(), i);
        if let Some(r) = find_from(t, reset_seq(), i) {
            lemma_split_bounds(t, r + 4);
            let head: Seq<(bool, int, int)> = if i > start {
                seq![(false, start, i)]
            } else {
                Seq::empty()
            };
            let cs = split_from(t, start);
            let tail = split_from(t, r + 4);
            assert(cs == head.push((true, i, r + 4)) + tail);
            assert(forall|k: int|
                head.len() + 1 <= k < cs.len() ==> cs[k] == tail[k - head.len() - 1]);
        }
    }
}

/// The merged output of one highlighter over a chunk list: the
/// highlighter's own pass over the plain chunks, colored chunks verbatim.
pub open spec fn merge_chunks_one(
    t: Seq<char>,
    cs: Seq<(bool, int, int)>,
    h: AnyHighlighter,
) -> Seq<char>
    decreases cs.len(),
{
    if cs.len() == 0 {
        Seq::empty()
    } else {
        (if cs[0].0 {
            chunk_text(t, cs[0])
        } else {
            h.apply_spec(chunk_text(t, cs[0]))
        }) + merge_chunks_one(t, cs.drop_first(), h)
    }
}

/// What the splitter/merger produces when one highlighter is run over the
/// plain chunks of `t`.
pub open spec fn merge_apply_one(t: Seq<char>, h: AnyHighlighter) -> Seq<char> {
    merge_chunks_one(t, split_from(t, 0), h)
}

/// `merge_chunks_one` agrees with the generic `apply_chunks` for any
/// transform that acts as the highlighter does.
pub proof fn lemma_merge_chunks_one_as_generic(
    t: Seq<char>,
    cs: Seq<(bool, int, int)>,
    h: AnyHighlighter,
    f: spec_fn(Seq<char>) -> Seq<char>,
)
    requires
        forall|c: Seq<char>| #[trigger] f(c) == h.apply_spec(c),
    ensures
        merge_chunks_one(t, cs, h) == apply_chunks(t, cs, f),
    decreases cs.len(),
{
    if cs.len() > 0 {
        lemma_merge_chunks_one_as_generic(t, cs.drop_first(), h, f);
    }
}

/// Apply one highlighter to the plain chunks of `input`, leaving every
/// already-colored chunk untouched.
pub fn apply_only_to_unhighlighted(input: &str, h: &AnyHighlighter) -> (r: String)
    ensures
        r@ == merge_apply_one(input@, *h),
{
    let chars = to_chars(input);
    let ranges = split_ranges(&chars);
    let mut result = String::new();
    let mut k: usize = 0;
    proof {
        assert(spec_ranges(ranges@) =~= split_from(input@, 0));
        assert(spec_ranges(ranges@).skip(0) =~= spec_ranges(ranges@));
        assert(result@ + merge_apply_one(input@, *h) =~= merge_apply_one(input@, *h));
    }
    while k < ranges.len()
        invariant
            chars@ == input@,
            k <= ranges@.len(),
            spec_ranges(ranges@) == split_from(input@, 0),
            forall|j: int|
                0 <= j < ranges@.len() ==> ranges@[j].1 <= ranges@[j].2 && ranges@[j].2
                    <= input@.len(),
            result@ + merge_chunks_one(input@, spec_ranges(ranges@).skip(k as int), *h)
                == merge_apply_one(input@, *h),
        decreases ranges@.len() - k,
    {
        let ghost pending = spec_ranges(ranges@).skip(k as int);
        proof {
            assert(pending[0] == spec_ranges(ranges@)[k as int]);
            assert(pending.drop_first() =~= spec_ranges(ranges@).skip(k as int + 1));
        }
        let c = ranges[k];
        let piece = input.substring_char(c.1, c.2);
        if c.0 {
            result.append(piece);
        } else {
            let transformed = h.apply(piece);
            result.append(transformed.as_str());
        }
        k = k + 1;
    }
    proof {
        assert(spec_ranges(ranges@).skip(k as int) =~= Seq::<(bool, int, int)>::empty());
        assert(result@ =~= merge_apply_one(input@, *h));
    }
    result
}

/// `apply_chunks` over a single chunk.
pub proof fn lemma_apply_chunks_one(t: Seq<char>, c: (bool, int, int), f: spec_fn(Seq<char>) -> Seq<char>)
    ensures
        apply_chunks(t, seq![c], f) == (if c.0 {
            chunk_text(t, c)
        } else {
            f(chunk_text(t, c))
        }),
{
    let s = seq![c];
    assert(s.drop_first() =~= Seq::<(bool, int, int)>::empty());
    assert(apply_chunks(t, Seq::<(bool, int, int)>::empty(), f) == Seq::<char>::empty());
    assert(apply_chunks(t, s, f) =~= (if c.0 {
        chunk_text(t, c)
    } else {
        f(chunk_text(t, c))
    }));
}

/// `apply_chunks` distributes over concatenation of chunk lists.
pub proof fn lemma_apply_chunks_concat(
    t: Seq<char>,
    a: Seq<(bool, int, int)>,
    b: Seq<(bool, int, int)>,
    f: spec_fn(Seq<char>) -> Seq<char>,
)
    ensures
        apply_chunks(t, a + b, f) == apply_chunks(t, a, f) + apply_chunks(t, b, f),
    decreases a.len(),
{
    if a.len() == 0 {
        assert(a + b =~= b);
        assert(apply_chunks(t, a, f) + apply_chunks(t, b, f) =~= apply_chunks(t, b, f));
    } else {
        assert((a + b).drop_first() =~= a.drop_first() + b);
        lemma_apply_chunks_concat(t, a.drop_first(), b, f);
        assert(apply_chunks(t, a + b, f) =~= apply_chunks(t, a, f) + apply_chunks(t, b, f));
    }
}

/// When the transform leaves every plain chunk unchanged, the merged output
/// is the input itself.  This is what makes a pipeline the identity on text
/// in which its highlighters recognize nothing.
pub proof fn lemma_merge_identity_from(t: Seq<char>, start: int, f: spec_fn(Seq<char>) -> Seq<char>)
    requires
        0 <= start <= t.len(),
        forall|k: int|
            0 <= k < split_from(t, start).len() && !split_from(t, start)[k].0 ==> f(
                chunk_text(t, split_from(t, start)[k]),
            ) == chunk_text(t, split_from(t, start)[k]),
    ensures
        apply_chunks(t, split_from(t, start), f) == t.subrange(start, t.len() as int),
    decreases t.len() - start,
{
    lemma_find_from(t, esc_intro(), start);
    let cs = split_from(t, start);
    match find_from(t, esc_intro(), start) {
        None => {
            if start == t.len() {
                assert(apply_chunks(t, cs, f) =~= t.subrange(start, t.len() as int));
            } else {
                assert(cs[0] == (false, start, t.len() as int));
                assert(f(chunk_text(t, cs[0])) == chunk_text(t, cs[0]));
                assert(cs =~= seq![(false, start, t.len() as int)]);
                lemma_apply_chunks_one(t, (false, start, t.len() as int), f);
                assert(apply_chunks(t, cs, f) =~= t.subrange(start, t.len() as int));
            }
        },
        Some(i) => {
            lemma_find_from(t, reset_seq(), i);
            let head: Seq<(bool, int, int)> = if i > start {
                seq![(false, start, i)]
            } else {
                Seq::empty()
            };
            match find_from(t, reset_seq(), i) {
                None => {
                    let col = (true, i, t.len() as int);
                    assert(cs =~= head + seq![col]);
                    lemma_apply_chunks_concat(t, head, seq![col], f);
                    lemma_apply_chunks_one(t, col, f);
                    if i > start {
                        assert(head =~= seq![(false, start, i)]);
                        lemma_apply_chunks_one(t, (false, start, i), f);
                        assert(!cs[0].0);
                        assert(f(chunk_text(t, cs[0])) == chunk_text(t, cs[0]));
                    } else {
                        assert(apply_chunks(t, head, f) == Seq::<char>::empty());
                    }
                    assert(apply_chunks(t, cs, f) =~= t.subrange(start, t.len() as int));
                },
                Some(r) => {
                    let tail = split_from(t, r + 4);
                    assert(cs == head.push((true, i, r + 4)) + tail);
                    assert(forall|k: int|
                        0 <= k < tail.len() ==> tail[k] == cs[head.len() + 1 + k]);
                    assert(forall|k: int|
                        0 <= k < tail.len() && !tail[k].0 ==> f(chunk_text(t, tail[k]))
                            == chunk_text(t, tail[k]));
                    lemma_merge_identity_from(t, r + 4, f);
                    lemma_apply_chunks_concat(t, head.push((true, i, r + 4)), tail, f);
                    let col = (true, i, r + 4);
                    assert(head.push(col) =~= head + seq![col]);
                    lemma_apply_chunks_concat(t, head, seq![col], f);
                    lemma_apply_chunks_one(t, col, f);
                    if i > start {
                        assert(!cs[0].0);
                        assert(f(chunk_text(t, cs[0])) == chunk_text(t, cs[0]));
                        assert(head =~= seq![(false, start, i)]);
                        lemma_apply_chunks_one(t, (false, start, i), f);
                    } else {
                        assert(apply_chunks(t, head, f) == Seq::<char>::empty());
                    }
                    assert(apply_chunks(t, head.push((true, i, r + 4)), f) =~= t.subrange(
                        start,
                        r + 4,
                    ));
                    assert(apply_chunks(t, cs, f) =~= t.subrange(start, t.len() as int));
                },
            }
        },
    }
}

/// The identity law for the splitter/merger over a whole string.
pub proof fn lemma_merge_identity(t: Seq<char>, f: spec_fn(Seq<char>) -> Seq<char>)
    requires
        forall|k: int|
            0 <= k < split_from(t, 0).len() && !split_from(t, 0)[k].0 ==> f(
                chunk_text(t, split_from(t, 0)[k]),
            ) == chunk_text(t, split_from(t, 0)[k]),
    ensures
        merge_apply(t, f) == t,
{
    lemma_merge_identity_from(t, 0, f);
    assert(t.subrange(0, t.len() as int) =~= t);
}

/// Re-applying any transform to text whose chunks are all already colored
/// changes nothing: the second pass sees only colored spans and skips them.
pub proof fn lemma_fully_colored_unchanged(t: Seq<char>, f: spec_fn(Seq<char>) -> Seq<char>)
    requires
        forall|k: int| 0 <= k < split_from(t, 0).len() ==> split_from(t, 0)[k].0,
    ensures
        merge_apply(t, f) == t,
{
    lemma_merge_identity(t, f);
}

/// No colored span of the input is altered by the merge: each one occurs
/// verbatim, in order, in the output.
pub proof fn lemma_colored_spans_preserved(
    t: Seq<char>,
    f: spec_fn(Seq<char>) -> Seq<char>,
    k: int,
)
    requires
        0 <= k < split_from(t, 0).len(),
        split_from(t, 0)[k].0,
    ensures
        exists|pre: Seq<char>, suf: Seq<char>|
            merge_apply(t, f) == pre + chunk_text(t, split_from(t, 0)[k]) + suf,
{
    let cs = split_from(t, 0);
    let a = cs.take(k);
    let mid = seq![cs[k]];
    let b = cs.skip(k + 1);
    assert(cs =~= a + mid + b);
    lemma_apply_chunks_concat(t, a + mid, b, f);
    lemma_apply_chunks_concat(t, a, mid, f);
    lemma_apply_chunks_one(t, cs[k], f);
    let pre = apply_chunks(t, a, f);
    let suf = apply_chunks(t, b, f);
    assert(apply_chunks(t, mid, f) =~= chunk_text(t, cs[k]));
    assert(merge_apply(t, f) == pre + chunk_text(t, cs[k]) + suf);
}

} // verus!
