//! Hybrid retrieval fusion: semantic candidates, lexical candidates and
//! lexical chat-transcript candidates are merged into one ranked, ordered,
//! deduplicated context list.
//!
//! Quality gates apply to the semantic leg only: a candidate needs a
//! similarity of at least 0.45 (scored here in thousandths), and a candidate
//! written within the last minute is suppressed so that the exchange being
//! answered does not resurface as a "memory". Candidates are deduplicated by
//! the first hundred characters of their content — not by record id, because
//! the same fact may be stored under different ids across the two stores —
//! and on a collision the earlier leg wins: semantic beats lexical beats
//! chat transcript. Kept content is capped per source before it is assembled
//! into context text.

use vstd::prelude::*;
use crate::text::{chars_vec, prefix_chars, take_prefix, truncate_chars};

verus! {

/// A semantic candidate is discarded below this similarity, in thousandths.
pub const SCORE_GATE_MILLI: u32 = 450;

/// A semantic candidate younger than this many seconds is an echo.
pub const ECHO_WINDOW_SECS: i64 = 60;

/// Content caps per source, in characters.
pub const SEMANTIC_CONTENT_CAP: usize = 400;

pub const LEXICAL_CONTENT_CAP: usize = 500;

pub const CHAT_CONTENT_CAP: usize = 300;

/// The placeholder score given to lexical and chat matches, whose engine
/// exposes no comparable scalar.
pub const LEXICAL_SCORE_MILLI: u32 = 500;

/// Candidates are considered duplicates when this many leading characters of
/// their content agree.
pub const DEDUP_PREFIX_CHARS: usize = 100;

/// A hit from the vector store: similarity in thousandths, and the payload
/// fields the fusion reads. A payload without a parseable timestamp carries
/// `None` and is not subject to the echo gate.
pub struct SemanticHit {
    pub id: String,
    pub score_milli: u32,
    pub timestamp: Option<i64>,
    pub role: String,
    pub memory_type: String,
    pub content: String,
}

/// A hit from the lexical index over memories.
pub struct LexicalHit {
    pub id: String,
    pub memory_type: String,
    pub title: String,
    pub content: String,
}

/// A hit from the lexical index over chat transcripts.
pub struct ChatHit {
    pub id: String,
    pub title: String,
    pub messages_text: String,
}

/// Which leg a merged entry came from.
#[derive(Clone, Copy, Debug, PartialEq, Eq, Structural)]
pub enum SourceKind {
    Semantic,
    Lexical,
    Chat,
}

/// One entry of the merged context list: provenance, original id and score,
/// a short label (the role, memory type or chat title), the lexical title
/// where there is one, and the capped content.
pub struct ContextEntry {
    pub source: SourceKind,
    pub id: String,
    pub score_milli: u32,
    pub label: String,
    pub title: String,
    pub content: String,
}

/// The abstract value of a merged entry.
pub struct ContextEntryV {
    pub source: SourceKind,
    pub id: Seq<char>,
    pub score_milli: u32,
    pub label: Seq<char>,
    pub title: Seq<char>,
    pub content: Seq<char>,
}

impl View for ContextEntry {
    type V = ContextEntryV;

    open spec fn view(&self) -> ContextEntryV {
        ContextEntryV {
            source: self.source,
            id: self.id@,
            score_milli: self.score_milli,
            label: self.label@,
            title: self.title@,
            content: self.content@,
        }
    }
}

/// The equality key of a candidate: the first hundred characters of its
/// content.
pub open spec fn dedup_key(content: Seq<char>) -> Seq<char> {
    take_prefix(content, DEDUP_PREFIX_CHARS as int)
}

/// The quality gates of the semantic leg: the similarity floor, inclusive,
/// and the echo window. A candidate without a timestamp passes the echo
/// gate.
pub open spec fn semantic_gate(h: SemanticHit, now: i64) -> bool {
    &&& h.score_milli >= SCORE_GATE_MILLI
    &&& match h.timestamp {
        None => true,
        Some(ts) => ts + ECHO_WINDOW_SECS <= now,
    }
}

/// What a kept semantic hit contributes to the context list.
pub open spec fn entry_of_semantic(h: SemanticHit) -> ContextEntryV {
    ContextEntryV {
        source: SourceKind::Semantic,
        id: h.id@,
        score_milli: h.score_milli,
        label: h.role@,
        title: Seq::empty(),
        content: take_prefix(h.content@, SEMANTIC_CONTENT_CAP as int),
    }
}

/// What a kept lexical hit contributes.
pub open spec fn entry_of_lexical(h: LexicalHit) -> ContextEntryV {
    ContextEntryV {
        source: SourceKind::Lexical,
        id: h.id@,
        score_milli: LEXICAL_SCORE_MILLI,
        label: h.memory_type@,
        title: h.title@,
        content: take_prefix(h.content@, LEXICAL_CONTENT_CAP as int),
    }
}

/// What a kept chat-transcript hit contributes.
pub open spec fn entry_of_chat(h: ChatHit) -> ContextEntryV {
    ContextEntryV {
        source: SourceKind::Chat,
        id: h.id@,
        score_milli: LEXICAL_SCORE_MILLI,
        label: h.title@,
        title: Seq::empty(),
        content: take_prefix(h.messages_text@, CHAT_CONTENT_CAP as int),
    }
}

/// A prepared candidate: whether its gates pass, its equality key, and the
/// entry it would contribute.
pub struct CandidateV {
    pub ok: bool,
    pub key: Seq<char>,
    pub entry: ContextEntryV,
}

pub open spec fn candidate_of_semantic(h: SemanticHit, now: i64) -> CandidateV {
    CandidateV {
        ok: semantic_gate(h, now),
        key: dedup_key(h.content@),
        entry: entry_of_semantic(h),
    }
}

pub open spec fn candidate_of_lexical(h: LexicalHit) -> CandidateV {
    CandidateV { ok: true, key: dedup_key(h.content@), entry: entry_of_lexical(h) }
}

/// A chat hit is excluded outright when it is the chat being answered.
pub open spec fn candidate_of_chat(h: ChatHit, exclude_chat: Option<Seq<char>>) -> CandidateV {
    CandidateV {
        ok: exclude_chat != Some(h.id@),
        key: dedup_key(h.messages_text@),
        entry: entry_of_chat(h),
    }
}

pub open spec fn semantic_candidates(hits: Seq<SemanticHit>, now: i64) -> Seq<CandidateV> {
    hits.map_values(|h: SemanticHit| candidate_of_semantic(h, now))
}

pub open spec fn lexical_candidates(hits: Seq<LexicalHit>) -> Seq<CandidateV> {
    hits.map_values(|h: LexicalHit| candidate_of_lexical(h))
}

pub open spec fn chat_candidates(hits: Seq<ChatHit>, exclude_chat: Option<Seq<char>>) -> Seq<
    CandidateV,
> {
    hits.map_values(|h: ChatHit| candidate_of_chat(h, exclude_chat))
}

/// The fusion fold: walk the candidates in order, keep each whose gates pass
/// and whose key has not been taken, and record every kept key.
pub open spec fn fuse(cands: Seq<CandidateV>, acc: Seq<ContextEntryV>, seen: Set<Seq<char>>) -> (
    Seq<ContextEntryV>,
    Set<Seq<char>>,
)
    decreases cands.len(),
{
    if cands.len() == 0 {
        (acc, seen)
    } else {
        let c = cands[0];
        if c.ok && !seen.contains(c.key) {
            fuse(cands.drop_first(), acc.push(c.entry), seen.insert(c.key))
        } else {
            fuse(cands.drop_first(), acc, seen)
        }
    }
}

/// The merged context list for the three legs: semantic candidates first,
/// then lexical, then chat transcripts.
pub open spec fn fuse_all(
    sem: Seq<SemanticHit>,
    lex: Seq<LexicalHit>,
    chats: Seq<ChatHit>,
    exclude_chat: Option<Seq<char>>,
    now: i64,
) -> Seq<ContextEntryV> {
    fuse(
        semantic_candidates(sem, now) + lexical_candidates(lex) + chat_candidates(
            chats,
            exclude_chat,
        ),
        Seq::empty(),
        Set::empty(),
    ).0
}

pub open spec fn view_of_opt_string(s: Option<String>) -> Option<Seq<char>> {
    match s {
        Some(v) => Some(v@),
        None => None,
    }
}

/// True when some seen key equals `k`.
fn seen_contains(seen: &Vec<Vec<char>>, k: &Vec<char>) -> (r: bool)
    ensures
        r <==> (exists|i: int| 0 <= i < seen@.len() && (#[trigger] seen@[i]@) == k@),
{
    let n = seen.len();
    for i in it: 0..n
        invariant
            n == seen@.len(),
            forall|j: int| 0 <= j < i ==> (#[trigger] seen@[j]@) != k@,
    {
        if crate::text::chars_eq(&seen[i], k) {
            return true;
        }
    }
    false
}

/// The ghost set described by the seen-key vector.
pub open spec fn seen_set(seen: Seq<Vec<char>>) -> Set<Seq<char>> {
    Set::new(|k: Seq<char>| exists|i: int| 0 <= i < seen.len() && (#[trigger] seen[i]@) == k)
}

/// The abstract values of a list of merged entries.
pub open spec fn views_of(s: Seq<ContextEntry>) -> Seq<ContextEntryV> {
    s.map_values(|e: ContextEntry| e@)
}

proof fn lemma_views_push(s: Seq<ContextEntry>, e: ContextEntry)
    ensures
        views_of(s.push(e)) == views_of(s).push(e@),
{
    assert(views_of(s.push(e)) =~= views_of(s).push(e@));
}

proof fn lemma_seen_push(seen: Seq<Vec<char>>, kv: Vec<char>)
    ensures
        seen_set(seen.push(kv)) == seen_set(seen).insert(kv@),
{
    let s2 = seen.push(kv);
    assert forall|k: Seq<char>| seen_set(s2).contains(k) implies seen_set(seen).insert(
        kv@,
    ).contains(k) by {
        let i = choose|i: int| 0 <= i < s2.len() && (#[trigger] s2[i]@) == k;
        if i < seen.len() {
            assert(seen[i]@ == k);
        }
    }
    assert forall|k: Seq<char>| seen_set(seen).insert(kv@).contains(k) implies seen_set(
        s2,
    ).contains(k) by {
        if k == kv@ {
            assert(s2[seen.len() as int]@ == k);
        } else {
            let i = choose|i: int| 0 <= i < seen.len() && (#[trigger] seen[i]@) == k;
            assert(s2[i]@ == k);
        }
    }
    assert(seen_set(s2) =~= seen_set(seen).insert(kv@));
}

/// Merges the three retrieval legs into the final context list: semantic
/// matches first (gated by score and echo window), then lexical matches,
/// then chat transcripts other than the excluded chat; duplicates by
/// hundred-character content prefix are dropped in favour of the earliest
/// leg, and each kept entry's content is capped for its source.
pub fn merge_hybrid(
    semantic: &Vec<SemanticHit>,
    lexical: &Vec<LexicalHit>,
    chats: &Vec<ChatHit>,
    exclude_chat_id: &Option<String>,
    now: i64,
) -> (r: Vec<ContextEntry>)
    ensures
        views_of(r@) == fuse_all(
            semantic@,
            lexical@,
            chats@,
            view_of_opt_string(*exclude_chat_id),
            now,
        ),
{
    let ghost all_cands = semantic_candidates(semantic@, now) + lexical_candidates(lexical@)
        + chat_candidates(chats@, view_of_opt_string(*exclude_chat_id));
    let mut out: Vec<ContextEntry> = Vec::new();
    let mut seen: Vec<Vec<char>> = Vec::new();
    proof {
        assert(views_of(out@) =~= Seq::<ContextEntryV>::empty());
        assert(seen_set(seen@) =~= Set::<Seq<char>>::empty());
        assert(all_cands.skip(0) =~= all_cands);
    }

    let nsem = semantic.len();
    for i in it: 0..nsem
        invariant
            nsem == semantic@.len(),
            all_cands == semantic_candidates(semantic@, now) + lexical_candidates(lexical@)
                + chat_candidates(chats@, view_of_opt_string(*exclude_chat_id)),
            fuse(all_cands.skip(i as int), views_of(out@), seen_set(seen@))
                == fuse(all_cands, Seq::empty(), Set::empty()),
    {
        let h = &semantic[i];
        proof {
            assert(all_cands.skip(i as int)[0] == candidate_of_semantic(semantic@[i as int], now));
            assert(all_cands.skip(i as int).drop_first() =~= all_cands.skip(i + 1));
        }
        let passes_score = h.score_milli >= SCORE_GATE_MILLI;
        let passes_echo = match h.timestamp {
            None => true,
            Some(ts) => ts <= i64::MAX - ECHO_WINDOW_SECS && ts + ECHO_WINDOW_SECS <= now,
        };
        let content_chars = chars_vec(h.content.as_str());
        let key = prefix_chars(&content_chars, DEDUP_PREFIX_CHARS);
        if passes_score && passes_echo && !seen_contains(&seen, &key) {
            let entry = ContextEntry {
                source: SourceKind::Semantic,
                id: h.id.clone(),
                score_milli: h.score_milli,
                label: h.role.clone(),
                title: String::new(),
                content: truncate_chars(h.content.as_str(), SEMANTIC_CONTENT_CAP),
            };
            proof {
                assert(entry@ == entry_of_semantic(semantic@[i as int]));
                assert(!seen_set(seen@).contains(key@));
                assert(fuse(all_cands.skip(i as int), views_of(out@), seen_set(seen@)) == fuse(
                    all_cands.skip(i + 1),
                    views_of(out@).push(entry@),
                    seen_set(seen@).insert(key@),
                ));
            }
            let ghost out0 = out@;
            let ghost seen0 = seen@;
            out.push(entry);
            seen.push(key);
            proof {
                lemma_views_push(out0, out@.last());
                lemma_seen_push(seen0, seen@.last());
            }
        } else {
            proof {
                if passes_score && passes_echo {
                    assert(seen_set(seen@).contains(key@));
                } else {
                    assert(!semantic_gate(semantic@[i as int], now));
                }
            }
        }
    }

    let nlex = lexical.len();
    for i in it: 0..nlex
        invariant
            nsem == semantic@.len(),
            nlex == lexical@.len(),
            all_cands == semantic_candidates(semantic@, now) + lexical_candidates(lexical@)
                + chat_candidates(chats@, view_of_opt_string(*exclude_chat_id)),
            fuse(
                all_cands.skip(nsem + i as int),
                views_of(out@),
                seen_set(seen@),
            ) == fuse(all_cands, Seq::empty(), Set::empty()),
    {
        let h = &lexical[i];
        proof {
            assert(all_cands.skip(nsem + i as int)[0] == candidate_of_lexical(lexical@[i as int]));
            assert(all_cands.skip(nsem + i as int).drop_first() =~= all_cands.skip(
                nsem + i as int + 1,
            ));
        }
        let content_chars = chars_vec(h.content.as_str());
        let key = prefix_chars(&content_chars, DEDUP_PREFIX_CHARS);
        if !seen_contains(&seen, &key) {
            let entry = ContextEntry {
                source: SourceKind::Lexical,
                id: h.id.clone(),
                score_milli: LEXICAL_SCORE_MILLI,
                label: h.memory_type.clone(),
                title: h.title.clone(),
                content: truncate_chars(h.content.as_str(), LEXICAL_CONTENT_CAP),
            };
            proof {
                assert(entry@ == entry_of_lexical(lexical@[i as int]));
                assert(!seen_set(seen@).contains(key@));
                assert(fuse(all_cands.skip(nsem + i as int), views_of(out@), seen_set(seen@))
                    == fuse(
                    all_cands.skip(nsem + i as int + 1),
                    views_of(out@).push(entry@),
                    seen_set(seen@).insert(key@),
                ));
            }
            let ghost out0 = out@;
            let ghost seen0 = seen@;
            out.push(entry);
            seen.push(key);
            proof {
                lemma_views_push(out0, out@.last());
                lemma_seen_push(seen0, seen@.last());
            }
        } else {
            proof {
                assert(seen_set(seen@).contains(key@));
            }
        }
    }

    let nchat = chats.len();
    for i in it: 0..nchat
        invariant
            nsem == semantic@.len(),
            nlex == lexical@.len(),
            nchat == chats@.len(),
            all_cands == semantic_candidates(semantic@, now) + lexical_candidates(lexical@)
                + chat_candidates(chats@, view_of_opt_string(*exclude_chat_id)),
            fuse(
                all_cands.skip(nsem + nlex + i as int),
                views_of(out@),
                seen_set(seen@),
            ) == fuse(all_cands, Seq::empty(), Set::empty()),
    {
        let h = &chats[i];
        proof {
            assert(all_cands.skip(nsem + nlex + i as int)[0] == candidate_of_chat(
                chats@[i as int],
                view_of_opt_string(*exclude_chat_id),
            ));
            assert(all_cands.skip(nsem + nlex + i as int).drop_first() =~= all_cands.skip(
                nsem + nlex + i as int + 1,
            ));
        }
        let excluded = match exclude_chat_id {
            Some(ex) => h.id == *ex,
            None => false,
        };
        let content_chars = chars_vec(h.messages_text.as_str());
        let key = prefix_chars(&content_chars, DEDUP_PREFIX_CHARS);
        if !excluded && !seen_contains(&seen, &key) {
            let entry = ContextEntry {
                source: SourceKind::Chat,
                id: h.id.clone(),
                score_milli: LEXICAL_SCORE_MILLI,
                label: h.title.clone(),
                title: String::new(),
                content: truncate_chars(h.messages_text.as_str(), CHAT_CONTENT_CAP),
            };
            proof {
                assert(entry@ == entry_of_chat(chats@[i as int]));
                assert(!seen_set(seen@).contains(key@));
                assert(fuse(all_cands.skip(nsem + nlex + i as int), views_of(out@), seen_set(
                    seen@,
                )) == fuse(
                    all_cands.skip(nsem + nlex + i as int + 1),
                    views_of(out@).push(entry@),
                    seen_set(seen@).insert(key@),
                ));
            }
            let ghost out0 = out@;
            let ghost seen0 = seen@;
            out.push(entry);
            seen.push(key);
            proof {
                lemma_views_push(out0, out@.last());
                lemma_seen_push(seen0, seen@.last());
            }
        } else {
            proof {
                if !excluded {
                    assert(seen_set(seen@).contains(key@));
                }
            }
        }
    }

    proof {
        assert(all_cands.skip(nsem + nlex + nchat as int) =~= Seq::<CandidateV>::empty());
    }
    out
}

/// Capping content at or beyond the dedup prefix leaves the dedup key alone.
proof fn lemma_dedup_key_capped(content: Seq<char>, cap: int)
    requires
        DEDUP_PREFIX_CHARS <= cap,
    ensures
        dedup_key(take_prefix(content, cap)) == dedup_key(content),
{
    if content.len() <= DEDUP_PREFIX_CHARS as int {
        assert(take_prefix(content, cap) =~= content);
    } else if content.len() <= cap {
        assert(take_prefix(content, cap) =~= content);
    } else {
        assert(dedup_key(take_prefix(content, cap)) =~= dedup_key(content));
    }
}

/// Folding a split candidate list is folding its halves in turn.
proof fn lemma_fuse_concat(
    a: Seq<CandidateV>,
    b: Seq<CandidateV>,
    acc: Seq<ContextEntryV>,
    seen: Set<Seq<char>>,
)
    ensures
        fuse(a + b, acc, seen) == fuse(b, fuse(a, acc, seen).0, fuse(a, acc, seen).1),
    decreases a.len(),
{
    if a.len() == 0 {
        assert(a + b =~= b);
    } else {
        let c = a[0];
        assert((a + b)[0] == c);
        assert((a + b).drop_first() =~= a.drop_first() + b);
        if c.ok && !seen.contains(c.key) {
            lemma_fuse_concat(a.drop_first(), b, acc.push(c.entry), seen.insert(c.key));
        } else {
            lemma_fuse_concat(a.drop_first(), b, acc, seen);
        }
    }
}

/// The invariants of the fusion fold, all at once: the fold only appends;
/// every entry's key is recorded; recorded keys are either inherited or owned
/// by an appended entry; no two entries share a key; every appended entry is
/// the contribution of some candidate that passed its gates; and the key of
/// every passing candidate ends up recorded.
proof fn lemma_fuse_props(cands: Seq<CandidateV>, acc: Seq<ContextEntryV>, seen: Set<Seq<char>>)
    requires
        forall|i: int| 0 <= i < acc.len() ==> seen.contains(dedup_key(#[trigger] acc[i].content)),
        forall|i: int, j: int|
            #![trigger acc[i].content, acc[j].content]
            0 <= i < j < acc.len() ==> dedup_key(acc[i].content) != dedup_key(acc[j].content),
        forall|i: int|
            0 <= i < cands.len() ==> (#[trigger] cands[i].key) == dedup_key(cands[i].entry.content),
    ensures
        ({
            let a2 = fuse(cands, acc, seen).0;
            let s2 = fuse(cands, acc, seen).1;
            &&& acc.len() <= a2.len()
            &&& a2.take(acc.len() as int) == acc
            &&& forall|k: Seq<char>| seen.contains(k) ==> s2.contains(k)
            &&& forall|i: int|
                0 <= i < a2.len() ==> s2.contains(dedup_key(#[trigger] a2[i].content))
            &&& forall|i: int, j: int|
                #![trigger a2[i].content, a2[j].content]
                0 <= i < j < a2.len() ==> dedup_key(a2[i].content) != dedup_key(a2[j].content)
            &&& forall|i: int|
                #![trigger a2[i]]
                acc.len() <= i < a2.len() ==> exists|j: int|
                    0 <= j < cands.len() && (#[trigger] cands[j]).ok && a2[i] == cands[j].entry
            &&& forall|j: int|
                0 <= j < cands.len() && (#[trigger] cands[j]).ok ==> s2.contains(cands[j].key)
            &&& forall|k: Seq<char>|
                s2.contains(k) ==> seen.contains(k) || exists|i: int|
                    acc.len() <= i < a2.len() && dedup_key((#[trigger] a2[i]).content) == k
        }),
    decreases cands.len(),
{
    let a2 = fuse(cands, acc, seen).0;
    let s2 = fuse(cands, acc, seen).1;
    if cands.len() == 0 {
        assert(a2.take(acc.len() as int) =~= acc);
    } else {
        let c = cands[0];
        let rest = cands.drop_first();
        assert forall|i: int|
            0 <= i < rest.len() implies (#[trigger] rest[i].key) == dedup_key(
            rest[i].entry.content,
        ) by {
            assert(cands[i + 1].key == dedup_key(cands[i + 1].entry.content));
        }
        if c.ok && !seen.contains(c.key) {
            let acc1 = acc.push(c.entry);
            let seen1 = seen.insert(c.key);
            assert(c.key == dedup_key(c.entry.content));
            assert forall|i: int|
                0 <= i < acc1.len() implies seen1.contains(
                dedup_key(#[trigger] acc1[i].content),
            ) by {
                if i < acc.len() {
                    assert(acc1[i] == acc[i]);
                } else {
                    assert(acc1[i] == c.entry);
                }
            }
            assert forall|i: int, j: int|
                #![trigger acc1[i].content, acc1[j].content]
                0 <= i < j < acc1.len() implies dedup_key(acc1[i].content) != dedup_key(
                acc1[j].content,
            ) by {
                if j < acc.len() {
                    assert(acc1[i] == acc[i] && acc1[j] == acc[j]);
                } else {
                    assert(acc1[j] == c.entry);
                    assert(acc1[i] == acc[i]);
                    assert(seen.contains(dedup_key(acc[i].content)));
                }
            }
            lemma_fuse_props(rest, acc1, seen1);
            assert(a2 == fuse(rest, acc1, seen1).0);
            assert(s2 == fuse(rest, acc1, seen1).1);
            assert(a2.take(acc1.len() as int) == acc1);
            assert(a2.take(acc.len() as int) =~= acc) by {
                assert forall|i: int| 0 <= i < acc.len() implies a2.take(acc.len() as int)[i]
                    == acc[i] by {
                    assert(a2.take(acc1.len() as int)[i] == acc1[i]);
                }
            }
            assert forall|i: int|
                #![trigger a2[i]]
                acc.len() <= i < a2.len() implies exists|j: int|
                    0 <= j < cands.len() && (#[trigger] cands[j]).ok && a2[i] == cands[j].entry by {
                if i == acc.len() {
                    assert(a2.take(acc1.len() as int)[i] == acc1[i]);
                    assert(a2[i] == c.entry);
                    assert(cands[0].ok && a2[i] == cands[0].entry);
                } else {
                    let j = choose|j: int|
                        0 <= j < rest.len() && (#[trigger] rest[j]).ok && a2[i] == rest[j].entry;
                    assert(cands[j + 1].ok && a2[i] == cands[j + 1].entry);
                }
            }
            assert forall|j: int|
                0 <= j < cands.len() && (#[trigger] cands[j]).ok implies s2.contains(
                cands[j].key,
            ) by {
                if j == 0 {
                    assert(seen1.contains(c.key));
                } else {
                    assert(rest[j - 1].ok);
                }
            }
            assert forall|k: Seq<char>|
                s2.contains(k) implies seen.contains(k) || exists|i: int|
                    acc.len() <= i < a2.len() && dedup_key((#[trigger] a2[i]).content) == k by {
                if !seen.contains(k) {
                    if k == c.key {
                        assert(a2.take(acc1.len() as int)[acc.len() as int]
                            == acc1[acc.len() as int]);
                        assert(a2[acc.len() as int] == c.entry);
                        assert(dedup_key(a2[acc.len() as int].content) == k);
                    } else {
                        assert(!seen1.contains(k));
                        let i = choose|i: int|
                            acc1.len() <= i < a2.len() && dedup_key((#[trigger] a2[i]).content)
                                == k;
                        assert(acc.len() <= i < a2.len());
                    }
                }
            }
        } else {
            lemma_fuse_props(rest, acc, seen);
            assert(a2 == fuse(rest, acc, seen).0);
            assert(s2 == fuse(rest, acc, seen).1);
            assert forall|i: int|
                #![trigger a2[i]]
                acc.len() <= i < a2.len() implies exists|j: int|
                    0 <= j < cands.len() && (#[trigger] cands[j]).ok && a2[i] == cands[j].entry by {
                let j = choose|j: int|
                    0 <= j < rest.len() && (#[trigger] rest[j]).ok && a2[i] == rest[j].entry;
                assert(cands[j + 1].ok && a2[i] == cands[j + 1].entry);
            }
            assert forall|j: int|
                0 <= j < cands.len() && (#[trigger] cands[j]).ok implies s2.contains(
                cands[j].key,
            ) by {
                if j == 0 {
                    assert(seen.contains(c.key));
                    assert(s2.contains(c.key));
                } else {
                    assert(rest[j - 1].ok);
                }
            }
        }
    }
}

/// Every candidate of the three legs keys on the dedup prefix of the content
/// its entry carries.
proof fn lemma_candidates_keyed(
    sem: Seq<SemanticHit>,
    lex: Seq<LexicalHit>,
    chats: Seq<ChatHit>,
    exclude_chat: Option<Seq<char>>,
    now: i64,
)
    ensures
        ({
            let cands = semantic_candidates(sem, now) + lexical_candidates(lex) + chat_candidates(
                chats,
                exclude_chat,
            );
            forall|i: int|
                0 <= i < cands.len() ==> (#[trigger] cands[i].key) == dedup_key(
                    cands[i].entry.content,
                )
        }),
{
    let a = semantic_candidates(sem, now);
    let b = lexical_candidates(lex);
    let c = chat_candidates(chats, exclude_chat);
    let cands = a + b + c;
    assert forall|i: int|
        0 <= i < cands.len() implies (#[trigger] cands[i].key) == dedup_key(
        cands[i].entry.content,
    ) by {
        if i < a.len() {
            assert(cands[i] == candidate_of_semantic(sem[i], now));
            lemma_dedup_key_capped(sem[i].content@, SEMANTIC_CONTENT_CAP as int);
        } else if i < a.len() + b.len() {
            assert(cands[i] == candidate_of_lexical(lex[i - a.len()]));
            lemma_dedup_key_capped(lex[i - a.len()].content@, LEXICAL_CONTENT_CAP as int);
        } else {
            assert(cands[i] == candidate_of_chat(chats[i - a.len() - b.len()], exclude_chat));
            lemma_dedup_key_capped(
                chats[i - a.len() - b.len()].messages_text@,
                CHAT_CONTENT_CAP as int,
            );
        }
    }
}

/// Dedup correctness, first half: the merged output never holds two entries
/// whose contents agree on their first hundred characters. Given two records
/// with identical content prefixes, at most one survives the merge.
pub proof fn lemma_merged_keys_distinct(
    sem: Seq<SemanticHit>,
    lex: Seq<LexicalHit>,
    chats: Seq<ChatHit>,
    exclude_chat: Option<Seq<char>>,
    now: i64,
)
    ensures
        ({
            let r = fuse_all(sem, lex, chats, exclude_chat, now);
            forall|i: int, j: int|
                #![trigger r[i].content, r[j].content]
                0 <= i < j < r.len() ==> dedup_key(r[i].content) != dedup_key(r[j].content)
        }),
{
    let cands = semantic_candidates(sem, now) + lexical_candidates(lex) + chat_candidates(
        chats,
        exclude_chat,
    );
    lemma_candidates_keyed(sem, lex, chats, exclude_chat, now);
    lemma_fuse_props(cands, Seq::empty(), Set::empty());
}

/// Dedup correctness, second half: a semantic hit that passes the gates
/// always owns its key in the merged output — the entry with that content
/// prefix is semantic-sourced, so on a collision the semantic leg wins.
pub proof fn lemma_merged_semantic_preferred(
    sem: Seq<SemanticHit>,
    lex: Seq<LexicalHit>,
    chats: Seq<ChatHit>,
    exclude_chat: Option<Seq<char>>,
    now: i64,
    j: int,
)
    requires
        0 <= j < sem.len(),
        semantic_gate(sem[j], now),
    ensures
        ({
            let r = fuse_all(sem, lex, chats, exclude_chat, now);
            exists|i: int|
                0 <= i < r.len() && (#[trigger] r[i]).source == SourceKind::Semantic && dedup_key(
                    r[i].content,
                ) == dedup_key(sem[j].content@)
        }),
{
    let a = semantic_candidates(sem, now);
    let bc = lexical_candidates(lex) + chat_candidates(chats, exclude_chat);
    let r = fuse_all(sem, lex, chats, exclude_chat, now);
    assert(a + lexical_candidates(lex) + chat_candidates(chats, exclude_chat) =~= a + bc);
    lemma_fuse_concat(a, bc, Seq::empty(), Set::empty());
    let a1 = fuse(a, Seq::empty(), Set::empty()).0;
    let s1 = fuse(a, Seq::empty(), Set::empty()).1;
    assert forall|i: int|
        0 <= i < a.len() implies (#[trigger] a[i].key) == dedup_key(a[i].entry.content) by {
        assert(a[i] == candidate_of_semantic(sem[i], now));
        lemma_dedup_key_capped(sem[i].content@, SEMANTIC_CONTENT_CAP as int);
    }
    lemma_fuse_props(a, Seq::empty(), Set::empty());
    assert(a[j] == candidate_of_semantic(sem[j], now));
    assert(a[j].ok);
    assert(s1.contains(a[j].key));
    let i = choose|i: int| 0 <= i < a1.len() && dedup_key((#[trigger] a1[i]).content) == a[j].key;
    let jj = choose|jj: int| 0 <= jj < a.len() && (#[trigger] a[jj]).ok && a1[i] == a[jj].entry;
    assert(a[jj] == candidate_of_semantic(sem[jj], now));
    assert(a1[i].source == SourceKind::Semantic);
    assert forall|p: int|
        0 <= p < a1.len() implies s1.contains(dedup_key(#[trigger] a1[p].content)) by {}
    assert forall|p: int|
        0 <= p < bc.len() implies (#[trigger] bc[p].key) == dedup_key(bc[p].entry.content) by {
        let b = lexical_candidates(lex);
        if p < b.len() {
            assert(bc[p] == candidate_of_lexical(lex[p]));
            lemma_dedup_key_capped(lex[p].content@, LEXICAL_CONTENT_CAP as int);
        } else {
            assert(bc[p] == candidate_of_chat(chats[p - b.len()], exclude_chat));
            lemma_dedup_key_capped(chats[p - b.len()].messages_text@, CHAT_CONTENT_CAP as int);
        }
    }
    lemma_fuse_props(bc, a1, s1);
    assert(r == fuse(bc, a1, s1).0);
    assert(r.take(a1.len() as int) == a1);
    assert(r.take(a1.len() as int)[i] == a1[i]);
    assert(r[i] == a1[i]);
    assert(dedup_key(r[i].content) == dedup_key(sem[j].content@));
}

/// Gate soundness: every semantic-sourced entry of the merged output is the
/// contribution of a hit that passed both the score floor and the echo
/// window. A hit scoring below 0.45, or written within the last minute,
/// never reaches the output through the semantic leg.
pub proof fn lemma_merged_semantic_gated(
    sem: Seq<SemanticHit>,
    lex: Seq<LexicalHit>,
    chats: Seq<ChatHit>,
    exclude_chat: Option<Seq<char>>,
    now: i64,
)
    ensures
        ({
            let r = fuse_all(sem, lex, chats, exclude_chat, now);
            forall|i: int|
                0 <= i < r.len() && (#[trigger] r[i]).source == SourceKind::Semantic
                    ==> exists|j: int|
                    0 <= j < sem.len() && semantic_gate(#[trigger] sem[j], now) && r[i]
                        == entry_of_semantic(sem[j])
        }),
{
    let a = semantic_candidates(sem, now);
    let b = lexical_candidates(lex);
    let c = chat_candidates(chats, exclude_chat);
    let cands = a + b + c;
    let r = fuse_all(sem, lex, chats, exclude_chat, now);
    lemma_candidates_keyed(sem, lex, chats, exclude_chat, now);
    lemma_fuse_props(cands, Seq::empty(), Set::empty());
    assert forall|i: int|
        0 <= i < r.len() && (#[trigger] r[i]).source == SourceKind::Semantic implies exists|j: int|
        0 <= j < sem.len() && semantic_gate(#[trigger] sem[j], now) && r[i] == entry_of_semantic(
        sem[j],
    ) by {
        let j = choose|j: int|
            0 <= j < cands.len() && (#[trigger] cands[j]).ok && r[i] == cands[j].entry;
        if j < a.len() {
            assert(cands[j] == candidate_of_semantic(sem[j], now));
            assert(semantic_gate(sem[j], now) && r[i] == entry_of_semantic(sem[j]));
        } else if j < a.len() + b.len() {
            assert(cands[j] == candidate_of_lexical(lex[j - a.len()]));
            assert(r[i].source == SourceKind::Lexical);
        } else {
            assert(cands[j] == candidate_of_chat(chats[j - a.len() - b.len()], exclude_chat));
            assert(r[i].source == SourceKind::Chat);
        }
    }
}


/// The order in which the legs are trusted.
pub open spec fn source_rank(s: SourceKind) -> int {
    match s {
        SourceKind::Semantic => 0,
        SourceKind::Lexical => 1,
        SourceKind::Chat => 2,
    }
}

/// Provenance ordering of the merge: the output is the semantic block, then
/// the lexical block, then the chat block — a later leg's entry never stands
/// before an earlier leg's.
pub proof fn lemma_merged_blocks_ordered(
    sem: Seq<SemanticHit>,
    lex: Seq<LexicalHit>,
    chats: Seq<ChatHit>,
    exclude_chat: Option<Seq<char>>,
    now: i64,
)
    ensures
        ({
            let r = fuse_all(sem, lex, chats, exclude_chat, now);
            forall|i: int, j: int|
                #![trigger r[i], r[j]]
                0 <= i < j < r.len() ==> source_rank(r[i].source) <= source_rank(r[j].source)
        }),
{
    let a = semantic_candidates(sem, now);
    let b = lexical_candidates(lex);
    let c = chat_candidates(chats, exclude_chat);
    let r = fuse_all(sem, lex, chats, exclude_chat, now);
    assert(a + b + c =~= (a + b) + c);
    lemma_fuse_concat(a + b, c, Seq::empty(), Set::empty());
    lemma_fuse_concat(a, b, Seq::empty(), Set::empty());
    let a1 = fuse(a, Seq::empty(), Set::empty()).0;
    let s1 = fuse(a, Seq::empty(), Set::empty()).1;
    let a2 = fuse(b, a1, s1).0;
    let s2 = fuse(b, a1, s1).1;
    assert forall|i: int|
        0 <= i < a.len() implies (#[trigger] a[i].key) == dedup_key(a[i].entry.content) by {
        assert(a[i] == candidate_of_semantic(sem[i], now));
        lemma_dedup_key_capped(sem[i].content@, SEMANTIC_CONTENT_CAP as int);
    }
    lemma_fuse_props(a, Seq::empty(), Set::empty());
    assert forall|i: int|
        0 <= i < b.len() implies (#[trigger] b[i].key) == dedup_key(b[i].entry.content) by {
        assert(b[i] == candidate_of_lexical(lex[i]));
        lemma_dedup_key_capped(lex[i].content@, LEXICAL_CONTENT_CAP as int);
    }
    lemma_fuse_props(b, a1, s1);
    assert forall|i: int|
        0 <= i < c.len() implies (#[trigger] c[i].key) == dedup_key(c[i].entry.content) by {
        assert(c[i] == candidate_of_chat(chats[i], exclude_chat));
        lemma_dedup_key_capped(chats[i].messages_text@, CHAT_CONTENT_CAP as int);
    }
    lemma_fuse_props(c, a2, s2);
    assert(r == fuse(c, a2, s2).0);
    let n1 = a1.len() as int;
    let n2 = a2.len() as int;
    assert forall|i: int| 0 <= i < n1 implies (#[trigger] r[i]).source == SourceKind::Semantic by {
        assert(r.take(n2)[i] == a2[i]);
        assert(a2.take(n1)[i] == a1[i]);
        assert(r[i] == a1[i]);
        let j = choose|j: int| 0 <= j < a.len() && (#[trigger] a[j]).ok && a1[i] == a[j].entry;
        assert(a[j] == candidate_of_semantic(sem[j], now));
    }
    assert forall|i: int| n1 <= i < n2 implies (#[trigger] r[i]).source == SourceKind::Lexical by {
        assert(r.take(n2)[i] == a2[i]);
        assert(r[i] == a2[i]);
        let j = choose|j: int| 0 <= j < b.len() && (#[trigger] b[j]).ok && a2[i] == b[j].entry;
        assert(b[j] == candidate_of_lexical(lex[j]));
    }
    assert forall|i: int| n2 <= i < r.len() implies (#[trigger] r[i]).source == SourceKind::Chat by {
        let j = choose|j: int| 0 <= j < c.len() && (#[trigger] c[j]).ok && r[i] == c[j].entry;
        assert(c[j] == candidate_of_chat(chats[j], exclude_chat));
    }
    assert(0 <= n1 <= n2 <= r.len());
    assert forall|i: int, j: int|
        #![trigger r[i], r[j]]
        0 <= i < j < r.len() implies source_rank(r[i].source) <= source_rank(r[j].source) by {
        if i < n1 {
            assert(r[i].source == SourceKind::Semantic);
        } else if i < n2 {
            assert(r[i].source == SourceKind::Lexical);
            assert(n1 <= j);
        } else {
            assert(r[i].source == SourceKind::Chat);
            assert(n2 <= j);
        }
    }
}


/// What a semantic hit becomes in the search endpoint's merged result list:
/// its own score, its type as the label, and its content uncapped.
pub open spec fn search_entry_of_semantic(h: SemanticHit) -> ContextEntryV {
    ContextEntryV {
        source: SourceKind::Semantic,
        id: h.id@,
        score_milli: h.score_milli,
        label: h.memory_type@,
        title: Seq::empty(),
        content: h.content@,
    }
}

/// What a lexical hit becomes there: the placeholder score, its type and
/// title, and its content uncapped.
pub open spec fn search_entry_of_lexical(h: LexicalHit) -> ContextEntryV {
    ContextEntryV {
        source: SourceKind::Lexical,
        id: h.id@,
        score_milli: LEXICAL_SCORE_MILLI,
        label: h.memory_type@,
        title: h.title@,
        content: h.content@,
    }
}

/// The content keys the semantic hits occupy.
pub open spec fn semantic_keys(sem: Seq<SemanticHit>) -> Set<Seq<char>> {
    Set::new(
        |k: Seq<char>|
            exists|i: int| 0 <= i < sem.len() && dedup_key((#[trigger] sem[i]).content@) == k,
    )
}

/// A lexical hit as the search endpoint's merge sees it: always past its
/// gates, keyed by its content prefix.
pub open spec fn search_candidate_of_lexical(h: LexicalHit) -> CandidateV {
    CandidateV { ok: true, key: dedup_key(h.content@), entry: search_entry_of_lexical(h) }
}

pub open spec fn search_lexical_candidates(lex: Seq<LexicalHit>) -> Seq<CandidateV> {
    lex.map_values(|h: LexicalHit| search_candidate_of_lexical(h))
}

/// The search endpoint's merge: every semantic hit, in order, then the
/// lexical hits fused under the one dedup policy — a lexical hit whose
/// first hundred content characters some kept entry already carries is
/// dropped, semantic entries winning and earlier lexical entries beating
/// later ones.
pub open spec fn search_merge(sem: Seq<SemanticHit>, lex: Seq<LexicalHit>) -> Seq<ContextEntryV> {
    fuse(
        search_lexical_candidates(lex),
        sem.map_values(|h: SemanticHit| search_entry_of_semantic(h)),
        semantic_keys(sem),
    ).0
}

proof fn lemma_semantic_keys_take(sem: Seq<SemanticHit>, i: int)
    requires
        0 <= i < sem.len(),
    ensures
        semantic_keys(sem.take(i + 1)) == semantic_keys(sem.take(i)).insert(
            dedup_key(sem[i].content@),
        ),
{
    let a = sem.take(i);
    let b = sem.take(i + 1);
    let k0 = dedup_key(sem[i].content@);
    assert forall|k: Seq<char>| semantic_keys(b).contains(k) implies semantic_keys(a).insert(
        k0,
    ).contains(k) by {
        let j = choose|j: int| 0 <= j < b.len() && dedup_key((#[trigger] b[j]).content@) == k;
        if j < i {
            assert(dedup_key(a[j].content@) == k);
        } else {
            assert(b[j] == sem[i]);
        }
    }
    assert forall|k: Seq<char>| semantic_keys(a).insert(k0).contains(k) implies semantic_keys(
        b,
    ).contains(k) by {
        if k == k0 {
            assert(dedup_key(b[i].content@) == k);
        } else {
            let j = choose|j: int| 0 <= j < a.len() && dedup_key((#[trigger] a[j]).content@) == k;
            assert(dedup_key(b[j].content@) == k);
        }
    }
    assert(semantic_keys(b) =~= semantic_keys(a).insert(k0));
}

/// Merges the two legs of the search endpoint: the semantic hits come first
/// with their own scores, then the lexical hits under the placeholder score.
/// Deduplication follows the one fusion policy — by the first hundred
/// characters of content, never by record id, since the two stores' id
/// spaces differ — so a lexical hit restating a returned memory is dropped
/// however it is identified.
pub fn merge_search_results(semantic: &Vec<SemanticHit>, lexical: &Vec<LexicalHit>) -> (r: Vec<
    ContextEntry,
>)
    ensures
        views_of(r@) == search_merge(semantic@, lexical@),
{
    let mut out: Vec<ContextEntry> = Vec::new();
    let mut keys: Vec<Vec<char>> = Vec::new();
    proof {
        assert(views_of(out@) =~= semantic@.take(0).map_values(
            |h: SemanticHit| search_entry_of_semantic(h),
        ));
        assert(seen_set(keys@) =~= semantic_keys(semantic@.take(0)));
    }
    let nsem = semantic.len();
    for i in it: 0..nsem
        invariant
            nsem == semantic@.len(),
            views_of(out@) == semantic@.take(i as int).map_values(
                |h: SemanticHit| search_entry_of_semantic(h),
            ),
            seen_set(keys@) == semantic_keys(semantic@.take(i as int)),
    {
        let h = &semantic[i];
        let entry = ContextEntry {
            source: SourceKind::Semantic,
            id: h.id.clone(),
            score_milli: h.score_milli,
            label: h.memory_type.clone(),
            title: String::new(),
            content: h.content.clone(),
        };
        let content_chars = chars_vec(h.content.as_str());
        let key = prefix_chars(&content_chars, DEDUP_PREFIX_CHARS);
        proof {
            assert(entry@ == search_entry_of_semantic(semantic@[i as int]));
            assert(key@ == dedup_key(semantic@[i as int].content@));
            lemma_semantic_keys_take(semantic@, i as int);
        }
        let ghost out0 = out@;
        let ghost keys0 = keys@;
        out.push(entry);
        keys.push(key);
        proof {
            lemma_views_push(out0, out@.last());
            lemma_seen_push(keys0, keys@.last());
            assert(semantic@.take(i + 1) =~= semantic@.take(i as int).push(semantic@[i as int]));
            assert(semantic@.take(i + 1).map_values(|h: SemanticHit| search_entry_of_semantic(h))
                =~= semantic@.take(i as int).map_values(
                |h: SemanticHit| search_entry_of_semantic(h),
            ).push(search_entry_of_semantic(semantic@[i as int])));
        }
    }
    proof {
        assert(semantic@.take(nsem as int) =~= semantic@);
        assert(search_lexical_candidates(lexical@).skip(0) =~= search_lexical_candidates(
            lexical@,
        ));
    }
    let ghost lex_cands = search_lexical_candidates(lexical@);
    let nlex = lexical.len();
    for i in it: 0..nlex
        invariant
            nlex == lexical@.len(),
            lex_cands == search_lexical_candidates(lexical@),
            fuse(lex_cands.skip(i as int), views_of(out@), seen_set(keys@)) == fuse(
                lex_cands,
                semantic@.map_values(|h: SemanticHit| search_entry_of_semantic(h)),
                semantic_keys(semantic@),
            ),
    {
        let h = &lexical[i];
        proof {
            assert(lex_cands.skip(i as int)[0] == search_candidate_of_lexical(lexical@[i as int]));
            assert(lex_cands.skip(i as int).drop_first() =~= lex_cands.skip(i + 1));
        }
        let content_chars = chars_vec(h.content.as_str());
        let key = prefix_chars(&content_chars, DEDUP_PREFIX_CHARS);
        if !seen_contains(&keys, &key) {
            let entry = ContextEntry {
                source: SourceKind::Lexical,
                id: h.id.clone(),
                score_milli: LEXICAL_SCORE_MILLI,
                label: h.memory_type.clone(),
                title: h.title.clone(),
                content: h.content.clone(),
            };
            proof {
                assert(entry@ == search_entry_of_lexical(lexical@[i as int]));
                assert(!seen_set(keys@).contains(key@));
                assert(fuse(lex_cands.skip(i as int), views_of(out@), seen_set(keys@)) == fuse(
                    lex_cands.skip(i + 1),
                    views_of(out@).push(entry@),
                    seen_set(keys@).insert(key@),
                ));
            }
            let ghost out0 = out@;
            let ghost keys0 = keys@;
            out.push(entry);
            keys.push(key);
            proof {
                lemma_views_push(out0, out@.last());
                lemma_seen_push(keys0, keys@.last());
            }
        } else {
            proof {
                assert(seen_set(keys@).contains(key@));
            }
        }
    }
    proof {
        assert(lex_cands.skip(nlex as int) =~= Seq::<CandidateV>::empty());
    }
    out
}


} // verus!
