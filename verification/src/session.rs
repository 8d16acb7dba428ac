//! The session context: the working-memory scratchpad kept per chat, holding
//! a rolling summary, the recent topics (capped, deduplicated, oldest out
//! first), a turn counter and the last exchange.

use vstd::prelude::*;
use crate::chunking::is_space;
use crate::llm::{lower_of, lowercase};
use crate::text::{chars_vec, string_from_chars};

verus! {


/// At most this many recent topics are kept.
pub const TOPIC_CAP: usize = 10;

/// A session expires after a day of inactivity.
pub const SESSION_TTL_SECS: i64 = 86_400;

/// Working memory for one active conversation. `updated_at` is UTC seconds.
pub struct SessionContext {
    pub chat_id: String,
    pub conversation_summary: String,
    pub active_goal: Option<String>,
    pub recent_topics: Vec<String>,
    pub turn_count: u32,
    pub user_persona_id: Option<String>,
    pub ai_persona_id: Option<String>,
    pub last_user_message: String,
    pub last_assistant_message: String,
    pub updated_at: i64,
}

/// The topic list as abstract text.
pub open spec fn topic_views(ts: Seq<String>) -> Seq<Seq<char>> {
    ts.map_values(|t: String| t@)
}

/// Appending new topics: each one already present is skipped, the others go
/// to the back in their given order.
pub open spec fn push_topics(cur: Seq<Seq<char>>, new: Seq<Seq<char>>) -> Seq<Seq<char>>
    decreases new.len(),
{
    if new.len() == 0 {
        cur
    } else {
        let cur2 = if cur.contains(new[0]) {
            cur
        } else {
            cur.push(new[0])
        };
        push_topics(cur2, new.drop_first())
    }
}

/// The cap: when the list has grown past the limit, the oldest topics fall
/// off the front and exactly the last `TOPIC_CAP` remain.
pub open spec fn cap_topics(ts: Seq<Seq<char>>) -> Seq<Seq<char>> {
    if ts.len() > TOPIC_CAP {
        ts.skip(ts.len() - TOPIC_CAP)
    } else {
        ts
    }
}

/// Whether a topic is already listed.
fn topic_listed(topics: &Vec<String>, t: &String) -> (r: bool)
    ensures
        r <==> topic_views(topics@).contains(t@),
{
    let n = topics.len();
    for i in it: 0..n
        invariant
            n == topics@.len(),
            forall|j: int| 0 <= j < i ==> (#[trigger] topics@[j]@) != t@,
    {
        if topics[i] == *t {
            proof {
                assert(topic_views(topics@)[i as int] == t@);
            }
            return true;
        }
    }
    proof {
        if topic_views(topics@).contains(t@) {
            let j = choose|j: int|
                0 <= j < topic_views(topics@).len() && topic_views(topics@)[j] == t@;
            assert(topics@[j]@ == t@);
        }
    }
    false
}

/// The session a chat starts with.
pub fn fresh_session(chat_id: &str, now: i64) -> (s: SessionContext)
    ensures
        s.chat_id@ == chat_id@,
        s.conversation_summary@ == Seq::<char>::empty(),
        s.active_goal is None,
        s.recent_topics@.len() == 0,
        s.turn_count == 0,
        s.user_persona_id is None,
        s.ai_persona_id is None,
        s.last_user_message@ == Seq::<char>::empty(),
        s.last_assistant_message@ == Seq::<char>::empty(),
        s.updated_at == now,
{
    SessionContext {
        chat_id: chat_id.to_owned(),
        conversation_summary: String::new(),
        active_goal: None,
        recent_topics: Vec::new(),
        turn_count: 0,
        user_persona_id: None,
        ai_persona_id: None,
        last_user_message: String::new(),
        last_assistant_message: String::new(),
        updated_at: now,
    }
}

/// Folds one exchange into the session: the summary and the last two
/// messages are replaced, the turn counter advances, and the new topics are
/// appended without duplicates, after which only the most recent `TOPIC_CAP`
/// survive, in insertion order. A chat without a session starts from the
/// fresh one.
pub fn update_session_after_exchange(
    current: Option<SessionContext>,
    chat_id: &str,
    user_msg: &str,
    assistant_msg: &str,
    summary: &str,
    topics: Vec<String>,
    now: i64,
) -> (s: SessionContext)
    requires
        current matches Some(c) ==> c.turn_count < u32::MAX,
    ensures
        s.conversation_summary@ == summary@,
        s.last_user_message@ == user_msg@,
        s.last_assistant_message@ == assistant_msg@,
        s.updated_at == now,
        topic_views(s.recent_topics@).len() <= TOPIC_CAP,
        current matches Some(c) ==> {
            &&& s.chat_id == c.chat_id
            &&& s.turn_count == c.turn_count + 1
            &&& s.active_goal == c.active_goal
            &&& s.user_persona_id == c.user_persona_id
            &&& s.ai_persona_id == c.ai_persona_id
            &&& topic_views(s.recent_topics@) == cap_topics(
                push_topics(topic_views(c.recent_topics@), topic_views(topics@)),
            )
        },
        current is None ==> {
            &&& s.chat_id@ == chat_id@
            &&& s.turn_count == 1
            &&& s.active_goal is None
            &&& s.user_persona_id is None
            &&& s.ai_persona_id is None
            &&& topic_views(s.recent_topics@) == cap_topics(
                push_topics(Seq::empty(), topic_views(topics@)),
            )
        },
{
    let base = match current {
        Some(c) => c,
        None => fresh_session(chat_id, now),
    };
    let ghost orig_topics = topic_views(base.recent_topics@);
    proof {
        if current is None {
            assert(orig_topics =~= Seq::<Seq<char>>::empty());
        }
    }
    let mut kept = base.recent_topics;
    let n = topics.len();
    proof {
        assert(topic_views(topics@).skip(0) =~= topic_views(topics@));
    }
    for i in it: 0..n
        invariant
            n == topics@.len(),
            push_topics(topic_views(kept@), topic_views(topics@).skip(i as int)) == push_topics(
                orig_topics,
                topic_views(topics@),
            ),
    {
        proof {
            assert(topic_views(topics@).skip(i as int)[0] == topics@[i as int]@);
            assert(topic_views(topics@).skip(i as int).drop_first() =~= topic_views(
                topics@,
            ).skip(i + 1));
        }
        let listed = topic_listed(&kept, &topics[i]);
        if !listed {
            let ghost kept0 = kept@;
            kept.push(topics[i].clone());
            proof {
                assert(topic_views(kept@) =~= topic_views(kept0).push(topics@[i as int]@));
            }
        }
    }
    proof {
        assert(topic_views(topics@).skip(n as int) =~= Seq::<Seq<char>>::empty());
        assert(push_topics(topic_views(kept@), Seq::empty()) == topic_views(kept@));
    }
    let final_topics: Vec<String> = if kept.len() > TOPIC_CAP {
        let from = kept.len() - TOPIC_CAP;
        let trimmed = crate::text::copy_range_strings(&kept, from, kept.len());
        proof {
            assert(topic_views(trimmed@) =~= topic_views(kept@).skip(from as int));
        }
        trimmed
    } else {
        kept
    };
    SessionContext {
        chat_id: base.chat_id,
        conversation_summary: summary.to_owned(),
        active_goal: base.active_goal,
        recent_topics: final_topics,
        turn_count: base.turn_count + 1,
        user_persona_id: base.user_persona_id,
        ai_persona_id: base.ai_persona_id,
        last_user_message: user_msg.to_owned(),
        last_assistant_message: assistant_msg.to_owned(),
        updated_at: now,
    }
}

/// A word must be longer than this to become a topic.
pub const TOPIC_MIN_WORD_CHARS: usize = 4;

/// At most this many candidate words are taken from one message.
pub const TOPIC_WORDS_CONSIDERED: usize = 5;

/// The characters a topic may keep at its edges: letters and digits.
pub open spec fn is_word_char(c: char) -> bool {
    ('a' <= c && c <= 'z') || ('A' <= c && c <= 'Z') || ('0' <= c && c <= '9')
}

fn is_word_char_exec(c: char) -> (r: bool)
    ensures
        r == is_word_char(c),
{
    ('a' <= c && c <= 'z') || ('A' <= c && c <= 'Z') || ('0' <= c && c <= '9')
}

pub open spec fn strip_front(s: Seq<char>) -> Seq<char>
    decreases s.len(),
{
    if s.len() > 0 && !is_word_char(s[0]) {
        strip_front(s.drop_first())
    } else {
        s
    }
}

pub open spec fn strip_back(s: Seq<char>) -> Seq<char>
    decreases s.len(),
{
    if s.len() > 0 && !is_word_char(s.last()) {
        strip_back(s.drop_last())
    } else {
        s
    }
}

/// A candidate word with punctuation stripped from both edges.
pub open spec fn strip_edges(s: Seq<char>) -> Seq<char> {
    strip_back(strip_front(s))
}

/// Strips non-word characters from both ends of a character vector.
fn strip_edges_exec(v: &Vec<char>) -> (r: Vec<char>)
    ensures
        r@ == strip_edges(v@),
{
    let n = v.len();
    let mut lo: usize = 0;
    proof {
        assert(v@.skip(0) =~= v@);
    }
    while lo < n && !is_word_char_exec(v[lo])
        invariant
            n == v@.len(),
            lo <= n,
            strip_front(v@) == strip_front(v@.skip(lo as int)),
        decreases n - lo,
    {
        proof {
            assert(v@.skip(lo as int)[0] == v@[lo as int]);
            assert(v@.skip(lo as int).drop_first() =~= v@.skip(lo + 1));
        }
        lo = lo + 1;
    }
    proof {
        if lo < n {
            assert(v@.skip(lo as int)[0] == v@[lo as int]);
        } else {
            assert(v@.skip(lo as int) =~= Seq::<char>::empty());
        }
        assert(strip_front(v@) == v@.skip(lo as int));
    }
    let t_len = n - lo;
    let mut hi: usize = t_len;
    let ghost t = v@.skip(lo as int);
    proof {
        assert(t.take(t_len as int) =~= t);
    }
    while hi > 0 && !is_word_char_exec(v[lo + hi - 1])
        invariant
            n == v@.len(),
            lo <= n,
            t == v@.skip(lo as int),
            t_len == t.len(),
            hi <= t_len,
            strip_back(t) == strip_back(t.take(hi as int)),
        decreases hi,
    {
        proof {
            assert(t.take(hi as int).last() == v@[lo + hi - 1]);
            assert(t.take(hi as int).drop_last() =~= t.take(hi - 1));
        }
        hi = hi - 1;
    }
    proof {
        if hi > 0 {
            assert(t.take(hi as int).last() == v@[lo + hi - 1]);
        } else {
            assert(t.take(0) =~= Seq::<char>::empty());
        }
        assert(strip_back(t) == t.take(hi as int));
        assert(v@.subrange(lo as int, lo + hi as int) =~= t.take(hi as int));
    }
    crate::text::copy_range(v, lo, lo + hi)
}

/// The candidate words of a message: split on whitespace, keep only words
/// longer than the minimum, and consider at most the first few of them.
pub open spec fn word_candidates(s: Seq<char>, i: int, cur: Seq<char>, count: int) -> Seq<
    Seq<char>,
>
    decreases s.len() - i,
{
    if count >= TOPIC_WORDS_CONSIDERED {
        Seq::empty()
    } else if !(0 <= i < s.len()) {
        if cur.len() > TOPIC_MIN_WORD_CHARS {
            seq![cur]
        } else {
            Seq::empty()
        }
    } else if is_space(s[i]) {
        if cur.len() > TOPIC_MIN_WORD_CHARS {
            seq![cur] + word_candidates(s, i + 1, Seq::empty(), count + 1)
        } else {
            word_candidates(s, i + 1, Seq::empty(), count)
        }
    } else {
        word_candidates(s, i + 1, cur.push(s[i]), count)
    }
}

/// Candidates refined into topics: edges stripped, lowercased, empties
/// dropped.
pub open spec fn refine_topics(words: Seq<Seq<char>>) -> Seq<Seq<char>>
    decreases words.len(),
{
    if words.len() == 0 {
        Seq::empty()
    } else {
        let t = lower_of(strip_edges(words[0]));
        (if t.len() > 0 {
            seq![t]
        } else {
            Seq::empty()
        }) + refine_topics(words.drop_first())
    }
}

/// The topics a message contributes to its session.
pub open spec fn spec_topics_of_message(s: Seq<char>) -> Seq<Seq<char>> {
    refine_topics(word_candidates(s, 0, Seq::empty(), 0))
}

/// Extracts the topic keywords of a message: its first few long words,
/// stripped of edge punctuation and lowercased.
pub fn topics_of_message(message: &str) -> (r: Vec<String>)
    ensures
        topic_views(r@) == spec_topics_of_message(message@),
{
    let mc = chars_vec(message);
    let n = mc.len();
    let mut r: Vec<String> = Vec::new();
    let mut cur: Vec<char> = Vec::new();
    let mut count: usize = 0;
    let mut i: usize = 0;
    proof {
        assert(topic_views(r@) =~= Seq::<Seq<char>>::empty());
        assert(Seq::<Seq<char>>::empty() + refine_topics(
            word_candidates(message@, 0, Seq::empty(), 0),
        ) =~= spec_topics_of_message(message@));
    }
    while i < n && count < TOPIC_WORDS_CONSIDERED
        invariant
            n == mc@.len(),
            mc@ == message@,
            i <= n,
            count <= TOPIC_WORDS_CONSIDERED,
            topic_views(r@) + refine_topics(
                word_candidates(message@, i as int, cur@, count as int),
            ) == spec_topics_of_message(message@),
        decreases n - i,
    {
        let c = mc[i];
        if crate::chunking::is_space_exec(c) {
            if cur.len() > TOPIC_MIN_WORD_CHARS {
                push_refined(&mut r, &cur);
                proof {
                    assert(word_candidates(message@, i as int, cur@, count as int) =~= seq![cur@]
                        + word_candidates(message@, i + 1, Seq::empty(), count + 1));
                    assert(seq![cur@].drop_first() =~= Seq::<Seq<char>>::empty());
                    lemma_refine_concat(
                        seq![cur@],
                        word_candidates(message@, i + 1, Seq::empty(), count + 1),
                    );
                }
                count = count + 1;
            }
            cur = Vec::new();
        } else {
            cur.push(c);
        }
        i = i + 1;
    }
    if count < TOPIC_WORDS_CONSIDERED && cur.len() > TOPIC_MIN_WORD_CHARS {
        proof {
            lemma_candidates_past_end(message@, i as int, cur@, count as int);
        }
        push_refined(&mut r, &cur);
        proof {
            assert(seq![cur@].drop_first() =~= Seq::<Seq<char>>::empty());
            assert(refine_topics(seq![cur@]) =~= refine_topics(seq![cur@])
                + Seq::<Seq<char>>::empty());
        }
    } else {
        proof {
            lemma_candidates_past_end(message@, i as int, cur@, count as int);
        }
    }
    proof {
        assert(topic_views(r@) + Seq::<Seq<char>>::empty() =~= topic_views(r@));
    }
    r
}

/// Past the end of the message, or once enough words were taken, only the
/// gathered word can still contribute.
proof fn lemma_candidates_past_end(s: Seq<char>, i: int, cur: Seq<char>, count: int)
    requires
        i >= s.len() || count >= TOPIC_WORDS_CONSIDERED,
    ensures
        word_candidates(s, i, cur, count) == (if count < TOPIC_WORDS_CONSIDERED && cur.len()
            > TOPIC_MIN_WORD_CHARS {
            seq![cur]
        } else {
            Seq::<Seq<char>>::empty()
        }),
{
}

/// Refinement distributes over splitting the candidate list.
proof fn lemma_refine_concat(a: Seq<Seq<char>>, b: Seq<Seq<char>>)
    ensures
        refine_topics(a + b) == refine_topics(a) + refine_topics(b),
    decreases a.len(),
{
    if a.len() == 0 {
        assert(a + b =~= b);
        assert(refine_topics(a) + refine_topics(b) =~= refine_topics(b));
    } else {
        assert((a + b)[0] == a[0]);
        assert((a + b).drop_first() =~= a.drop_first() + b);
        lemma_refine_concat(a.drop_first(), b);
        assert(refine_topics(a + b) =~= refine_topics(a) + refine_topics(b));
    }
}

/// Strips, lowercases and appends one candidate word, unless nothing is
/// left of it.
fn push_refined(r: &mut Vec<String>, word: &Vec<char>)
    ensures
        topic_views(final(r)@) == topic_views(old(r)@) + refine_topics(seq![word@]),
{
    let ghost before = r@;
    let stripped = strip_edges_exec(word);
    let stripped_str = string_from_chars(&stripped);
    let lowered = lowercase(stripped_str.as_str());
    proof {
        assert(seq![word@].drop_first() =~= Seq::<Seq<char>>::empty());
        assert(refine_topics(Seq::<Seq<char>>::empty()) == Seq::<Seq<char>>::empty());
        assert(seq![word@][0] == word@);
        assert(lowered@ == lower_of(strip_edges(word@)));
    }
    if !lowered.as_str().is_empty() {
        r.push(lowered);
        proof {
            assert(topic_views(r@) =~= topic_views(before).push(lower_of(strip_edges(word@))));
            assert(topic_views(before).push(lower_of(strip_edges(word@))) =~= topic_views(before)
                + refine_topics(seq![word@]));
        }
    } else {
        proof {
            assert(topic_views(r@) =~= topic_views(before) + refine_topics(seq![word@]));
        }
    }
}

/// The one-line summary of an exchange written into the session: the two
/// messages, each capped at two hundred characters.
pub fn build_exchange_summary(user_msg: &str, assistant_msg: &str) -> (r: String)
    ensures
        r@ == "User asked about: "@ + crate::text::take_prefix(user_msg@, 200)
            + ". Assistant responded regarding: "@ + crate::text::take_prefix(assistant_msg@, 200)
            + "."@,
{
    let u = crate::text::truncate_chars(user_msg, 200);
    let a = crate::text::truncate_chars(assistant_msg, 200);
    "User asked about: ".to_owned().concat(u.as_str()).concat(
        ". Assistant responded regarding: ",
    ).concat(a.as_str()).concat(".")
}

} // verus!
