//! Preparing text and audio for speech synthesis: splitting long text into
//! sentence-sized chunks the synthesizer can handle, and concatenating the
//! WAV fragments it returns into one file with corrected header sizes.

use vstd::prelude::*;
use crate::codec::le_bytes_of_unit;
use crate::text::{chars_vec, copy_range, string_from_chars};

verus! {

use vstd::string::StringSliceAdditionalSpecFns;

/// The whitespace trimmed from chunk boundaries.
pub open spec fn is_space(c: char) -> bool {
    c == ' ' || c == '\t' || c == '\n' || c == '\r'
}

/// A sentence ends at one of these characters.
pub open spec fn is_sentence_end(c: char) -> bool {
    c == '.' || c == '!' || c == '?' || c == '\n'
}

/// An over-long sentence may be split after one of these characters.
pub open spec fn is_sub_delimiter(c: char) -> bool {
    c == ',' || c == ';' || c == ':'
}

pub open spec fn trim_front(s: Seq<char>) -> Seq<char>
    decreases s.len(),
{
    if s.len() > 0 && is_space(s[0]) {
        trim_front(s.drop_first())
    } else {
        s
    }
}

pub open spec fn trim_back(s: Seq<char>) -> Seq<char>
    decreases s.len(),
{
    if s.len() > 0 && is_space(s.last()) {
        trim_back(s.drop_last())
    } else {
        s
    }
}

/// `s` without leading and trailing whitespace.
pub open spec fn trim_spec(s: Seq<char>) -> Seq<char> {
    trim_back(trim_front(s))
}

proof fn lemma_trim_front_no_lead(s: Seq<char>)
    ensures
        trim_front(s).len() > 0 ==> !is_space(trim_front(s)[0]),
    decreases s.len(),
{
    if s.len() > 0 && is_space(s[0]) {
        lemma_trim_front_no_lead(s.drop_first());
    }
}

proof fn lemma_trim_back_no_trail(s: Seq<char>)
    ensures
        trim_back(s).len() > 0 ==> !is_space(trim_back(s).last()),
        trim_back(s).len() > 0 ==> trim_back(s)[0] == s[0],
    decreases s.len(),
{
    if s.len() > 0 && is_space(s.last()) {
        lemma_trim_back_no_trail(s.drop_last());
    }
}

/// A nonempty trimmed text starts and ends with a visible character.
proof fn lemma_trim_props(s: Seq<char>)
    ensures
        trim_spec(s).len() > 0 ==> !is_space(trim_spec(s)[0]),
        trim_spec(s).len() > 0 ==> !is_space(trim_spec(s).last()),
{
    lemma_trim_front_no_lead(s);
    lemma_trim_back_no_trail(trim_front(s));
}

/// Trims whitespace from both ends of a character vector.
pub fn trim_chars(v: &Vec<char>) -> (r: Vec<char>)
    ensures
        r@ == trim_spec(v@),
{
    let n = v.len();
    let mut lo: usize = 0;
    proof {
        assert(v@.skip(0) =~= v@);
    }
    while lo < n && is_space_exec(v[lo])
        invariant
            n == v@.len(),
            lo <= n,
            trim_front(v@) == trim_front(v@.skip(lo as int)),
        decreases n - lo,
    {
        proof {
            assert(v@.skip(lo as int)[0] == v@[lo as int]);
            assert(v@.skip(lo as int).drop_first() =~= v@.skip(lo + 1));
        }
        lo = lo + 1;
    }
    proof {
        if lo < n {
            assert(v@.skip(lo as int)[0] == v@[lo as int]);
        } else {
            assert(v@.skip(lo as int) =~= Seq::<char>::empty());
        }
        assert(trim_front(v@) == v@.skip(lo as int));
    }
    let t_len = n - lo;
    let mut hi: usize = t_len;
    let ghost t = v@.skip(lo as int);
    proof {
        assert(t.take(t_len as int) =~= t);
    }
    while hi > 0 && is_space_exec(v[lo + hi - 1])
        invariant
            n == v@.len(),
            lo <= n,
            t == v@.skip(lo as int),
            t_len == t.len(),
            hi <= t_len,
            trim_back(t) == trim_back(t.take(hi as int)),
        decreases hi,
    {
        proof {
            assert(t.take(hi as int).last() == v@[lo + hi - 1]);
            assert(t.take(hi as int).drop_last() =~= t.take(hi - 1));
        }
        hi = hi - 1;
    }
    proof {
        if hi > 0 {
            assert(t.take(hi as int).last() == v@[lo + hi - 1]);
        } else {
            assert(t.take(0) =~= Seq::<char>::empty());
        }
        assert(trim_back(t) == t.take(hi as int));
        assert(v@.subrange(lo as int, lo + hi as int) =~= t.take(hi as int));
    }
    copy_range(v, lo, lo + hi)
}

pub(crate) fn is_space_exec(c: char) -> (r: bool)
    ensures
        r == is_space(c),
{
    c == ' ' || c == '\t' || c == '\n' || c == '\r'
}

fn is_sentence_end_exec(c: char) -> (r: bool)
    ensures
        r == is_sentence_end(c),
{
    c == '.' || c == '!' || c == '?' || c == '\n'
}

fn is_sub_delimiter_exec(c: char) -> (r: bool)
    ensures
        r == is_sub_delimiter(c),
{
    c == ',' || c == ';' || c == ':'
}

/// Every chunk is nonempty and trimmed at both ends.
pub open spec fn trimmed_chunks(s: Seq<String>) -> bool {
    forall|i: int|
        0 <= i < s.len() ==> (#[trigger] s[i]@).len() > 0 && !is_space(s[i]@[0]) && !is_space(
            s[i]@.last(),
        )
}

/// The non-whitespace characters of a text, in order: what chunking must
/// neither drop nor invent.
pub open spec fn visible_chars(s: Seq<char>) -> Seq<char> {
    s.filter(|c: char| !is_space(c))
}

/// All chunks joined, in order.
pub open spec fn concat_chunks(chunks: Seq<String>) -> Seq<char>
    decreases chunks.len(),
{
    if chunks.len() == 0 {
        Seq::empty()
    } else {
        concat_chunks(chunks.drop_last()) + chunks.last()@
    }
}

/// A character the chunker may cut after.
pub open spec fn is_split_point(c: char) -> bool {
    is_sentence_end(c) || is_sub_delimiter(c)
}

/// No character satisfying `pred` stands before the final one.
pub open spec fn none_before_last(s: Seq<char>, pred: spec_fn(char) -> bool) -> bool {
    forall|j: int| 0 <= j < s.len() - 1 ==> !pred(#[trigger] s[j])
}

/// A fragment the algorithm cannot cut further: no split point stands before
/// its final character.
pub open spec fn split_free(s: Seq<char>) -> bool {
    none_before_last(s, |c: char| is_split_point(c))
}

/// Every chunk fits the limit, except one that is a single fragment with no
/// split point left in it.
pub open spec fn bounded_chunks(chunks: Seq<String>, max_chars: int) -> bool {
    forall|i: int|
        0 <= i < chunks.len() ==> (#[trigger] chunks[i]@).len() <= max_chars || split_free(
            chunks[i]@,
        )
}

/// What the gatherer holds between chunks: nothing, or gathered parts with a
/// trailing space — within the limit, or one unsplittable trimmed fragment.
pub open spec fn accum_ok(cur: Seq<char>, max_chars: int) -> bool {
    cur.len() == 0 || {
        &&& cur.last() == ' '
        &&& (cur.len() <= max_chars + 1 || {
            &&& split_free(cur.drop_last())
            &&& trim_spec(cur.drop_last()) == cur.drop_last()
        })
    }
}

proof fn lemma_visible_empty()
    ensures
        visible_chars(Seq::<char>::empty()) == Seq::<char>::empty(),
{
    reveal(Seq::filter);
}

proof fn lemma_visible_single_space(c: char)
    requires
        is_space(c),
    ensures
        visible_chars(seq![c]) == Seq::<char>::empty(),
{
    reveal(Seq::filter);
    lemma_visible_empty();
    assert(seq![c].drop_last() =~= Seq::<char>::empty());
}

proof fn lemma_visible_trim_front(s: Seq<char>)
    ensures
        visible_chars(trim_front(s)) == visible_chars(s),
    decreases s.len(),
{
    if s.len() > 0 && is_space(s[0]) {
        assert(s =~= seq![s[0]] + s.drop_first());
        Seq::filter_distributes_over_add(seq![s[0]], s.drop_first(), |c: char| !is_space(c));
        lemma_visible_single_space(s[0]);
        assert(visible_chars(s) =~= visible_chars(s.drop_first()));
        lemma_visible_trim_front(s.drop_first());
    }
}

proof fn lemma_visible_trim_back(s: Seq<char>)
    ensures
        visible_chars(trim_back(s)) == visible_chars(s),
    decreases s.len(),
{
    if s.len() > 0 && is_space(s.last()) {
        reveal(Seq::filter);
        assert(visible_chars(s) == visible_chars(s.drop_last()));
        lemma_visible_trim_back(s.drop_last());
    }
}

/// Trimming changes no visible character.
proof fn lemma_visible_trim(s: Seq<char>)
    ensures
        visible_chars(trim_spec(s)) == visible_chars(s),
{
    lemma_visible_trim_front(s);
    lemma_visible_trim_back(trim_front(s));
}

proof fn lemma_trim_front_len(s: Seq<char>)
    ensures
        trim_front(s).len() <= s.len(),
    decreases s.len(),
{
    if s.len() > 0 && is_space(s[0]) {
        lemma_trim_front_len(s.drop_first());
    }
}

proof fn lemma_trim_back_len(s: Seq<char>)
    ensures
        trim_back(s).len() <= s.len(),
    decreases s.len(),
{
    if s.len() > 0 && is_space(s.last()) {
        lemma_trim_back_len(s.drop_last());
    }
}

/// Trimming never lengthens a text.
proof fn lemma_trim_len(s: Seq<char>)
    ensures
        trim_spec(s).len() <= s.len(),
{
    lemma_trim_front_len(s);
    lemma_trim_back_len(trim_front(s));
}

/// A trailing space does not change what trimming yields.
proof fn lemma_trim_spec_snoc_space(s: Seq<char>)
    ensures
        trim_spec(s.push(' ')) == trim_spec(s),
    decreases s.len(),
{
    let p = s.push(' ');
    if s.len() == 0 {
        assert(p[0] == ' ');
        assert(p.drop_first() =~= s);
    } else if is_space(s[0]) {
        assert(p[0] == s[0]);
        assert(p.drop_first() =~= s.drop_first().push(' '));
        lemma_trim_spec_snoc_space(s.drop_first());
        assert(trim_front(p) == trim_front(s.drop_first().push(' ')));
        assert(trim_front(s) == trim_front(s.drop_first()));
    } else {
        assert(p[0] == s[0]);
        assert(trim_front(p) == p);
        assert(trim_front(s) == s);
        assert(p.last() == ' ');
        assert(p.drop_last() =~= s);
        assert(trim_back(p) == trim_back(s));
    }
}

/// Trimming an already trimmed text changes nothing.
proof fn lemma_trim_idempotent(s: Seq<char>)
    ensures
        trim_spec(trim_spec(s)) == trim_spec(s),
{
    lemma_trim_props(s);
    let t = trim_spec(s);
    assert(trim_front(t) == t);
    assert(trim_back(t) == t);
}

proof fn lemma_none_before_last_trim_front(s: Seq<char>, pred: spec_fn(char) -> bool)
    requires
        none_before_last(s, pred),
    ensures
        none_before_last(trim_front(s), pred),
    decreases s.len(),
{
    if s.len() > 0 && is_space(s[0]) {
        assert forall|j: int|
            0 <= j < s.drop_first().len() - 1 implies !pred(#[trigger] s.drop_first()[j]) by {
            assert(s.drop_first()[j] == s[j + 1]);
        }
        lemma_none_before_last_trim_front(s.drop_first(), pred);
    }
}

proof fn lemma_none_before_last_trim_back(s: Seq<char>, pred: spec_fn(char) -> bool)
    requires
        none_before_last(s, pred),
    ensures
        none_before_last(trim_back(s), pred),
    decreases s.len(),
{
    if s.len() > 0 && is_space(s.last()) {
        assert forall|j: int|
            0 <= j < s.drop_last().len() - 1 implies !pred(#[trigger] s.drop_last()[j]) by {
            assert(s.drop_last()[j] == s[j]);
        }
        lemma_none_before_last_trim_back(s.drop_last(), pred);
    }
}

/// Trimming cannot move a forbidden character before the final one.
proof fn lemma_none_before_last_trim(s: Seq<char>, pred: spec_fn(char) -> bool)
    requires
        none_before_last(s, pred),
    ensures
        none_before_last(trim_spec(s), pred),
{
    lemma_none_before_last_trim_front(s, pred);
    lemma_none_before_last_trim_back(trim_front(s), pred);
}

/// Trims the gathered text and appends it as a chunk when anything is left:
/// the chunk is trimmed and nonempty, fits the limit or is one unsplittable
/// fragment, and carries exactly the gatherer's visible characters.
fn push_chunk(chunks: &mut Vec<String>, cur: &Vec<char>, max_chars: usize)
    requires
        trimmed_chunks(old(chunks)@),
        bounded_chunks(old(chunks)@, max_chars as int),
        accum_ok(cur@, max_chars as int),
    ensures
        trimmed_chunks(final(chunks)@),
        bounded_chunks(final(chunks)@, max_chars as int),
        visible_chars(concat_chunks(final(chunks)@)) == visible_chars(
            concat_chunks(old(chunks)@),
        ) + visible_chars(cur@),
{
    let t = trim_chars(cur);
    proof {
        lemma_visible_trim(cur@);
    }
    if t.len() > 0 {
        proof {
            lemma_trim_props(cur@);
            assert(cur@.len() > 0) by {
                if cur@.len() == 0 {
                    assert(trim_front(cur@) == cur@);
                    assert(trim_back(cur@) == cur@);
                }
            }
            assert(cur@ =~= cur@.drop_last().push(' '));
            lemma_trim_spec_snoc_space(cur@.drop_last());
            assert(t@ == trim_spec(cur@.drop_last()));
            if cur@.len() <= max_chars + 1 {
                lemma_trim_len(cur@.drop_last());
                assert(t@.len() <= max_chars);
            } else {
                lemma_trim_idempotent(cur@.drop_last());
                assert(t@ == cur@.drop_last());
                assert(split_free(t@));
            }
        }
        let ghost before = chunks@;
        let chunk = string_from_chars(&t);
        chunks.push(chunk);
        proof {
            assert forall|i: int|
                0 <= i < chunks@.len() implies (#[trigger] chunks@[i]@).len() > 0 && !is_space(
                chunks@[i]@[0],
            ) && !is_space(chunks@[i]@.last()) by {
                if i < before.len() {
                    assert(chunks@[i] == before[i]);
                }
            }
            assert forall|i: int|
                0 <= i < chunks@.len() implies (#[trigger] chunks@[i]@).len() <= max_chars as int
                    || split_free(chunks@[i]@) by {
                if i < before.len() {
                    assert(chunks@[i] == before[i]);
                }
            }
            assert(chunks@.drop_last() =~= before);
            assert(concat_chunks(chunks@) == concat_chunks(before) + t@);
            Seq::filter_distributes_over_add(concat_chunks(before), t@, |c: char| !is_space(c));
        }
    } else {
        proof {
            lemma_visible_empty();
            assert(visible_chars(concat_chunks(chunks@)) + visible_chars(cur@) =~= visible_chars(
                concat_chunks(chunks@),
            ));
        }
    }
}

/// Splits text into chunks for speech synthesis. Text short enough is passed
/// through whole. Longer text is cut at sentence boundaries (keeping the
/// punctuation); a sentence longer than the limit is further cut after
/// commas, semicolons and colons. Chunks are trimmed and never empty;
/// chunking drops no visible character and invents none; each chunk fits the
/// limit unless it is a single fragment with no split point left, which only
/// a sentence fragment longer than the limit without punctuation produces.
pub fn chunk_text_for_tts(text: &str, max_chars: usize) -> (r: Vec<String>)
    requires
        text.spec_bytes().len() <= usize::MAX,
    ensures
        text.spec_bytes().len() <= max_chars ==> r@.len() == 1 && r@[0]@ == text@,
        text.spec_bytes().len() > max_chars ==> trimmed_chunks(r@),
        text.spec_bytes().len() > max_chars ==> bounded_chunks(r@, max_chars as int),
        visible_chars(concat_chunks(r@)) == visible_chars(text@),
        visible_chars(text@).len() > 0 ==> r@.len() >= 1,
{
    if text.len() <= max_chars {
        let mut r: Vec<String> = Vec::new();
        r.push(text.to_owned());
        proof {
            assert(r@.drop_last() =~= Seq::<String>::empty());
            assert(concat_chunks(Seq::<String>::empty()) == Seq::<char>::empty());
            lemma_visible_empty();
            assert(r@.last()@ == text@);
            assert(concat_chunks(r@) =~= text@);
        }
        return r;
    }
    let tc = chars_vec(text);
    let n = tc.len();
    let mut chunks: Vec<String> = Vec::new();
    let mut cur: Vec<char> = Vec::new();
    let mut start: usize = 0;
    proof {
        lemma_visible_empty();
        assert(tc@.take(0) =~= Seq::<char>::empty());
        assert(visible_chars(concat_chunks(chunks@)) + visible_chars(cur@) =~= visible_chars(
            tc@.take(0),
        ));
    }
    while start < n
        invariant
            n == tc@.len(),
            tc@ == text@,
            start <= n,
            trimmed_chunks(chunks@),
            bounded_chunks(chunks@, max_chars as int),
            accum_ok(cur@, max_chars as int),
            visible_chars(concat_chunks(chunks@)) + visible_chars(cur@) == visible_chars(
                tc@.take(start as int),
            ),
        decreases n - start,
    {
        let ghost start0 = start as int;
        let mut end = start;
        while end < n && !is_sentence_end_exec(tc[end])
            invariant
                n == tc@.len(),
                start <= end <= n,
                forall|j: int| start <= j < end ==> !is_sentence_end(#[trigger] tc@[j]),
            decreases n - end,
        {
            end = end + 1;
        }
        if end < n {
            end = end + 1;
        }
        let sentence = copy_range(&tc, start, end);
        let trimmed = trim_chars(&sentence);
        start = end;
        proof {
            assert(tc@.take(end as int) =~= tc@.take(start0) + sentence@);
            Seq::filter_distributes_over_add(tc@.take(start0), sentence@, |c: char| !is_space(c));
            lemma_visible_trim(sentence@);
            assert(none_before_last(sentence@, |c: char| is_sentence_end(c))) by {
                assert forall|j: int|
                    0 <= j < sentence@.len() - 1 implies !is_sentence_end(
                    #[trigger] sentence@[j],
                ) by {
                    assert(sentence@[j] == tc@[start0 + j]);
                }
            }
            lemma_none_before_last_trim(sentence@, |c: char| is_sentence_end(c));
        }
        if trimmed.len() == 0 {
            proof {
                lemma_visible_empty();
                assert(visible_chars(concat_chunks(chunks@)) + visible_chars(cur@)
                    =~= visible_chars(tc@.take(start as int)));
            }
            continue ;
        }
        if cur.len() > 0 && cur.len() as u128 + trimmed.len() as u128 > max_chars as u128 {
            push_chunk(&mut chunks, &cur, max_chars);
            cur = Vec::new();
            proof {
                lemma_visible_empty();
            }
        }
        if trimmed.len() > max_chars {
            let m = trimmed.len();
            let mut ps: usize = 0;
            proof {
                assert(trimmed@.take(0) =~= Seq::<char>::empty());
                lemma_visible_empty();
            }
            while ps < m
                invariant
                    n == tc@.len(),
                    tc@ == text@,
                    m == trimmed@.len(),
                    ps <= m,
                    none_before_last(trimmed@, |c: char| is_sentence_end(c)),
                    trimmed_chunks(chunks@),
                    bounded_chunks(chunks@, max_chars as int),
                    accum_ok(cur@, max_chars as int),
                    visible_chars(concat_chunks(chunks@)) + visible_chars(cur@) == visible_chars(
                        tc@.take(start0),
                    ) + visible_chars(trimmed@.take(ps as int)),
                decreases m - ps,
            {
                let ghost ps0 = ps as int;
                let mut pe = ps;
                while pe < m && !is_sub_delimiter_exec(trimmed[pe])
                    invariant
                        m == trimmed@.len(),
                        ps <= pe <= m,
                        forall|j: int| ps <= j < pe ==> !is_sub_delimiter(#[trigger] trimmed@[j]),
                    decreases m - pe,
                {
                    pe = pe + 1;
                }
                let ghost pe0 = pe as int;
                if pe < m {
                    pe = pe + 1;
                }
                let part = copy_range(&trimmed, ps, pe);
                let mut part_trimmed = trim_chars(&part);
                let ghost pt_v = part_trimmed@;
                ps = pe;
                proof {
                    assert(trimmed@.take(pe as int) =~= trimmed@.take(ps0) + part@);
                    Seq::filter_distributes_over_add(
                        trimmed@.take(ps0),
                        part@,
                        |c: char| !is_space(c),
                    );
                    lemma_visible_trim(part@);
                    assert(none_before_last(part@, |c: char| is_split_point(c))) by {
                        assert forall|j: int|
                            0 <= j < part@.len() - 1 implies !is_split_point(
                            #[trigger] part@[j],
                        ) by {
                            assert(part@[j] == trimmed@[ps0 + j]);
                            assert(ps0 + j < pe0);
                            assert(ps0 + j < trimmed@.len() - 1);
                        }
                    }
                    lemma_none_before_last_trim(part@, |c: char| is_split_point(c));
                    assert(split_free(pt_v));
                    lemma_trim_idempotent(part@);
                    assert(trim_spec(pt_v) == pt_v);
                }
                if cur.len() > 0 && cur.len() as u128 + part_trimmed.len() as u128
                    > max_chars as u128 {
                    push_chunk(&mut chunks, &cur, max_chars);
                    cur = Vec::new();
                    proof {
                        lemma_visible_empty();
                    }
                }
                let ghost cur0 = cur@;
                cur.append(&mut part_trimmed);
                cur.push(' ');
                proof {
                    assert(cur@ =~= cur0 + pt_v + seq![' ']);
                    Seq::filter_distributes_over_add(cur0 + pt_v, seq![' '], |c: char| !is_space(c));
                    Seq::filter_distributes_over_add(cur0, pt_v, |c: char| !is_space(c));
                    lemma_visible_single_space(' ');
                    assert(visible_chars(cur@) =~= visible_chars(cur0) + visible_chars(pt_v));
                    assert(cur@.last() == ' ');
                    assert(cur@.drop_last() =~= cur0 + pt_v);
                    if cur0.len() == 0 {
                        assert(cur@.drop_last() =~= pt_v);
                    }
                    assert(visible_chars(trimmed@.take(ps as int)) =~= visible_chars(
                        trimmed@.take(ps0),
                    ) + visible_chars(pt_v));
                    assert(visible_chars(concat_chunks(chunks@)) + visible_chars(cur0)
                        =~= visible_chars(tc@.take(start0)) + visible_chars(trimmed@.take(ps0)));
                    assert(visible_chars(concat_chunks(chunks@)) + (visible_chars(cur0)
                        + visible_chars(pt_v)) =~= (visible_chars(concat_chunks(chunks@))
                        + visible_chars(cur0)) + visible_chars(pt_v));
                    assert((visible_chars(tc@.take(start0)) + visible_chars(trimmed@.take(ps0)))
                        + visible_chars(pt_v) =~= visible_chars(tc@.take(start0)) + (visible_chars(
                        trimmed@.take(ps0),
                    ) + visible_chars(pt_v)));
                    assert(visible_chars(concat_chunks(chunks@)) + visible_chars(cur@)
                        =~= visible_chars(tc@.take(start0)) + visible_chars(
                        trimmed@.take(ps as int),
                    ));
                }
            }
            proof {
                assert(trimmed@.take(m as int) =~= trimmed@);
                assert(visible_chars(concat_chunks(chunks@)) + visible_chars(cur@)
                    =~= visible_chars(tc@.take(start as int)));
            }
        } else {
            let ghost cur0 = cur@;
            let ghost tr_v = trimmed@;
            let mut rest = trimmed;
            cur.append(&mut rest);
            cur.push(' ');
            proof {
                assert(cur@ =~= cur0 + tr_v + seq![' ']);
                Seq::filter_distributes_over_add(cur0 + tr_v, seq![' '], |c: char| !is_space(c));
                Seq::filter_distributes_over_add(cur0, tr_v, |c: char| !is_space(c));
                lemma_visible_single_space(' ');
                assert(visible_chars(cur@) =~= visible_chars(cur0) + visible_chars(tr_v));
                assert(cur@.last() == ' ');
                assert(visible_chars(concat_chunks(chunks@)) + visible_chars(cur@)
                    =~= visible_chars(tc@.take(start as int)));
            }
        }
    }
    proof {
        assert(tc@.take(n as int) =~= tc@);
    }
    push_chunk(&mut chunks, &cur, max_chars);
    proof {
        if chunks@.len() == 0 {
            lemma_visible_empty();
            assert(visible_chars(concat_chunks(chunks@)).len() == 0);
        }
    }
    chunks
}

/// The WAV header is this long.
pub const WAV_HEADER_LEN: usize = 44;

/// One second of leading silence at 24 kHz, 16-bit mono.
pub const SILENCE_PAD_LEN: usize = 48000;

/// The little-endian bytes of a size field, truncated to 32 bits.
pub open spec fn le32(x: int) -> Seq<u8> {
    le_bytes_of_unit(x as u32)
}

/// The raw sample data carried by the fragments: everything after the header
/// of each fragment long enough to have one.
pub open spec fn concat_pcms(chunks: Seq<Vec<u8>>) -> Seq<u8>
    decreases chunks.len(),
{
    if chunks.len() == 0 {
        Seq::empty()
    } else {
        (if chunks[0]@.len() > WAV_HEADER_LEN {
            chunks[0]@.skip(WAV_HEADER_LEN as int)
        } else {
            Seq::empty()
        }) + concat_pcms(chunks.drop_first())
    }
}

proof fn lemma_concat_pcms_snoc(chunks: Seq<Vec<u8>>, c: Vec<u8>)
    ensures
        concat_pcms(chunks.push(c)) == concat_pcms(chunks) + (if c@.len() > WAV_HEADER_LEN {
            c@.skip(WAV_HEADER_LEN as int)
        } else {
            Seq::empty()
        }),
    decreases chunks.len(),
{
    let s = chunks.push(c);
    if chunks.len() == 0 {
        assert(s[0] == c);
        assert(s.drop_first() =~= Seq::<Vec<u8>>::empty());
        assert(concat_pcms(s.drop_first()) == Seq::<u8>::empty());
        assert(concat_pcms(chunks) == Seq::<u8>::empty());
        assert(concat_pcms(s) =~= concat_pcms(chunks) + (if c@.len() > WAV_HEADER_LEN {
            c@.skip(WAV_HEADER_LEN as int)
        } else {
            Seq::empty()
        }));
    } else {
        assert(s[0] == chunks[0]);
        assert(s.drop_first() =~= chunks.drop_first().push(c));
        lemma_concat_pcms_snoc(chunks.drop_first(), c);
        assert(concat_pcms(s) =~= concat_pcms(chunks) + (if c@.len() > WAV_HEADER_LEN {
            c@.skip(WAV_HEADER_LEN as int)
        } else {
            Seq::empty()
        }));
    }
}

/// The header of the combined file: the first fragment's header with the file
/// size and the data-chunk size fields overwritten.
pub open spec fn patched_header(h: Seq<u8>, pcm_total: int) -> Seq<u8> {
    h.take(4) + le32(pcm_total + 36) + h.subrange(8, 40) + le32(pcm_total)
}

/// Concatenates WAV fragments of one format into a single file: one second
/// of silence is laid down first to avoid a clipped start, each fragment's
/// header is dropped, and the first fragment's header is reused with its two
/// size fields corrected. No fragment long enough to carry samples means the
/// first fragment is returned as it came; no fragments at all mean an empty
/// result.
#[verifier::rlimit(100)]
pub fn concatenate_wav_audio(audio_chunks: Vec<Vec<u8>>) -> (r: Vec<u8>)
    requires
        concat_pcms(audio_chunks@).len() + SILENCE_PAD_LEN + WAV_HEADER_LEN <= usize::MAX,
    ensures
        audio_chunks@.len() == 0 ==> r@ == Seq::<u8>::empty(),
        audio_chunks@.len() > 0 && concat_pcms(audio_chunks@).len() == 0 ==> r@
            == audio_chunks@[0]@,
        audio_chunks@.len() > 0 && concat_pcms(audio_chunks@).len() > 0 ==> r@ == (
        if audio_chunks@[0]@.len() >= WAV_HEADER_LEN {
            patched_header(
                audio_chunks@[0]@.take(WAV_HEADER_LEN as int),
                SILENCE_PAD_LEN + concat_pcms(audio_chunks@).len(),
            )
        } else {
            Seq::<u8>::empty()
        }) + Seq::new(SILENCE_PAD_LEN as nat, |i: int| 0u8) + concat_pcms(audio_chunks@),
{
    if audio_chunks.len() == 0 {
        return Vec::new();
    }
    let mut pcms: Vec<u8> = Vec::new();
    let nc = audio_chunks.len();
    proof {
        assert(audio_chunks@.take(0) =~= Seq::<Vec<u8>>::empty());
    }
    for ci in it: 0..nc
        invariant
            nc == audio_chunks@.len(),
            pcms@ == concat_pcms(audio_chunks@.take(ci as int)),
            pcms@.len() <= concat_pcms(audio_chunks@).len(),
        decreases nc - ci,
    {
        proof {
            assert(audio_chunks@.take(ci + 1) =~= audio_chunks@.take(ci as int).push(
                audio_chunks@[ci as int],
            ));
            lemma_concat_pcms_snoc(audio_chunks@.take(ci as int), audio_chunks@[ci as int]);
            lemma_concat_prefix_bound(audio_chunks@, ci + 1);
        }
        let chunk = &audio_chunks[ci];
        if chunk.len() > WAV_HEADER_LEN {
            let mut tail = copy_range(chunk, WAV_HEADER_LEN, chunk.len());
            proof {
                assert(chunk@.subrange(WAV_HEADER_LEN as int, chunk@.len() as int) =~= chunk@.skip(
                    WAV_HEADER_LEN as int,
                ));
            }
            pcms.append(&mut tail);
        }
    }
    proof {
        assert(audio_chunks@.take(nc as int) =~= audio_chunks@);
    }
    if pcms.len() == 0 {
        let mut chunks = audio_chunks;
        let first = chunks.remove(0);
        return first;
    }
    let total: usize = SILENCE_PAD_LEN + pcms.len();
    let first = &audio_chunks[0];
    let mut r: Vec<u8> = if first.len() >= WAV_HEADER_LEN {
        build_patched_header(first, total)
    } else {
        Vec::new()
    };
    let ghost header_part = r@;
    let mut silence = zero_bytes(SILENCE_PAD_LEN);
    r.append(&mut silence);
    let mut body = pcms;
    r.append(&mut body);
    proof {
        assert(r@ =~= header_part + Seq::new(SILENCE_PAD_LEN as nat, |i: int| 0u8) + concat_pcms(
            audio_chunks@,
        ));
    }
    r
}

/// A run of silent samples.
fn zero_bytes(n: usize) -> (r: Vec<u8>)
    ensures
        r@ == Seq::new(n as nat, |i: int| 0u8),
{
    let mut r: Vec<u8> = Vec::new();
    let mut zi: usize = 0;
    while zi < n
        invariant
            zi <= n,
            r@ == Seq::new(zi as nat, |i: int| 0u8),
        decreases n - zi,
    {
        r.push(0u8);
        proof {
            assert(Seq::new((zi + 1) as nat, |i: int| 0u8) =~= Seq::new(
                zi as nat,
                |i: int| 0u8,
            ).push(0u8));
        }
        zi = zi + 1;
    }
    r
}

/// Copies the first fragment's header, overwriting its two size fields.
#[verifier::rlimit(60)]
fn build_patched_header(first: &Vec<u8>, total: usize) -> (r: Vec<u8>)
    requires
        first@.len() >= WAV_HEADER_LEN,
        total + 36 <= usize::MAX,
    ensures
        r@ == patched_header(first@.take(WAV_HEADER_LEN as int), total as int),
{
    let ghost h = first@.take(WAV_HEADER_LEN as int);
    let mut r: Vec<u8> = copy_range(first, 0, 4);
    proof {
        assert(r@ =~= h.take(4));
    }
    let ghost r1 = r@;
    let file_size: u32 = #[verifier::truncate] ((total + 36) as u32);
    r.push((file_size % 256) as u8);
    r.push(((file_size / 256) % 256) as u8);
    r.push(((file_size / 65536) % 256) as u8);
    r.push(((file_size / 16777216) % 256) as u8);
    proof {
        assert(le32(total + 36) == le_bytes_of_unit(file_size));
        assert(r@ =~= r1 + le32(total + 36));
    }
    let ghost r2 = r@;
    let mut mid = copy_range(first, 8, 40);
    r.append(&mut mid);
    proof {
        assert(first@.subrange(8, 40) =~= h.subrange(8, 40));
        assert(r@ == r2 + h.subrange(8, 40));
    }
    let ghost r3 = r@;
    let data_size: u32 = #[verifier::truncate] (total as u32);
    r.push((data_size % 256) as u8);
    r.push(((data_size / 256) % 256) as u8);
    r.push(((data_size / 65536) % 256) as u8);
    r.push(((data_size / 16777216) % 256) as u8);
    proof {
        assert(le32(total as int) == le_bytes_of_unit(data_size));
        assert(r@ =~= r3 + le32(total as int));
        assert(r@ =~= patched_header(h, total as int));
    }
    r
}

/// The samples gathered from a prefix never outnumber those of the whole.
proof fn lemma_concat_prefix_bound(chunks: Seq<Vec<u8>>, n: int)
    requires
        0 <= n <= chunks.len(),
    ensures
        concat_pcms(chunks.take(n)).len() <= concat_pcms(chunks).len(),
    decreases chunks.len() - n,
{
    if n < chunks.len() {
        assert(chunks.take(n + 1) =~= chunks.take(n).push(chunks[n]));
        lemma_concat_pcms_snoc(chunks.take(n), chunks[n]);
        lemma_concat_prefix_bound(chunks, n + 1);
        assert(chunks.take(chunks.len() as int) =~= chunks);
    } else {
        assert(chunks.take(n) =~= chunks);
    }
}

} // verus!
