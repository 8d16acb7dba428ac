//! Assembling retrieved memories and session state into the context text
//! that conditions generation: each merged entry becomes one numbered line
//! tagged with its provenance, under a fixed header; the session context
//! follows as its own block.

use vstd::prelude::*;
use crate::retrieval::{ContextEntry, ContextEntryV, SourceKind};
use crate::session::SessionContext;

verus! {

use vstd::string::StringExecFns;

/// The decimal digit for a value below ten.
pub open spec fn digit_char(d: int) -> char {
    seq!['0', '1', '2', '3', '4', '5', '6', '7', '8', '9'][d]
}

/// The decimal digits of a nonnegative number, most significant first.
pub open spec fn spec_decimal(n: int) -> Seq<char>
    recommends
        n >= 0,
    decreases n,
{
    if n < 10 {
        seq![digit_char(n)]
    } else {
        spec_decimal(n / 10) + seq![digit_char(n % 10)]
    }
}

fn digit_str(d: usize) -> (r: &'static str)
    requires
        d < 10,
    ensures
        r@ == seq![digit_char(d as int)],
{
    let r = if d == 0 {
        "0"
    } else if d == 1 {
        "1"
    } else if d == 2 {
        "2"
    } else if d == 3 {
        "3"
    } else if d == 4 {
        "4"
    } else if d == 5 {
        "5"
    } else if d == 6 {
        "6"
    } else if d == 7 {
        "7"
    } else if d == 8 {
        "8"
    } else {
        "9"
    };
    proof {
        reveal_strlit("0");
        reveal_strlit("1");
        reveal_strlit("2");
        reveal_strlit("3");
        reveal_strlit("4");
        reveal_strlit("5");
        reveal_strlit("6");
        reveal_strlit("7");
        reveal_strlit("8");
        reveal_strlit("9");
        assert(r@ =~= seq![digit_char(d as int)]);
    }
    r
}

/// Prints a number in decimal.
pub fn usize_to_decimal(n: usize) -> (r: String)
    ensures
        r@ == spec_decimal(n as int),
    decreases n,
{
    if n < 10 {
        digit_str(n).to_owned()
    } else {
        let high = usize_to_decimal(n / 10);
        high.concat(digit_str(n % 10))
    }
}

/// One entry's line: its provenance tag and label in brackets, then the
/// capped content.
pub open spec fn spec_entry_line(e: ContextEntryV) -> Seq<char> {
    match e.source {
        SourceKind::Semantic => "[semantic:"@ + e.label + "] "@ + e.content,
        SourceKind::Lexical => "["@ + e.label + ":"@ + e.title + "] "@ + e.content,
        SourceKind::Chat => "[chat:"@ + e.label + "] "@ + e.content,
    }
}

/// The numbered lines from position `i` on, separated by line breaks.
pub open spec fn spec_context_lines(entries: Seq<ContextEntryV>, i: int) -> Seq<char>
    decreases entries.len() - i,
{
    if !(0 <= i < entries.len()) {
        Seq::empty()
    } else {
        let line = spec_decimal(i + 1) + ". "@ + spec_entry_line(entries[i]);
        if i + 1 < entries.len() {
            line + "\n"@ + spec_context_lines(entries, i + 1)
        } else {
            line
        }
    }
}

/// The whole memory block: the header and the numbered lines, or nothing at
/// all when retrieval found nothing — an empty block must not disturb the
/// system prompt.
pub open spec fn spec_context_block(entries: Seq<ContextEntryV>) -> Seq<char> {
    if entries.len() == 0 {
        Seq::empty()
    } else {
        "\n\n[Relevant memories from past conversations:]\n"@ + spec_context_lines(entries, 0)
    }
}

fn entry_line(e: &ContextEntry) -> (r: String)
    ensures
        r@ == spec_entry_line(e@),
{
    match e.source {
        SourceKind::Semantic => "[semantic:".to_owned().concat(e.label.as_str()).concat(
            "] ",
        ).concat(e.content.as_str()),
        SourceKind::Lexical => "[".to_owned().concat(e.label.as_str()).concat(":").concat(
            e.title.as_str(),
        ).concat("] ").concat(e.content.as_str()),
        SourceKind::Chat => "[chat:".to_owned().concat(e.label.as_str()).concat("] ").concat(
            e.content.as_str(),
        ),
    }
}

/// Formats the merged context list into the text injected ahead of the
/// system prompt.
pub fn format_context(entries: &Vec<ContextEntry>) -> (r: String)
    ensures
        r@ == spec_context_block(crate::retrieval::views_of(entries@)),
{
    let ghost ev = crate::retrieval::views_of(entries@);
    let n = entries.len();
    if n == 0 {
        return String::new();
    }
    let mut s = "\n\n[Relevant memories from past conversations:]\n".to_owned();
    let ghost header = s@;
    for i in it: 0..n
        invariant
            n == entries@.len(),
            n >= 1,
            ev == crate::retrieval::views_of(entries@),
            ev.len() == n,
            s@ + spec_context_lines(ev, i as int) == header + spec_context_lines(ev, 0),
    {
        proof {
            assert(ev[i as int] == entries@[i as int]@);
        }
        let number = usize_to_decimal(i + 1);
        let line = entry_line(&entries[i]);
        s = s.concat(number.as_str()).concat(". ").concat(line.as_str());
        if i + 1 < n {
            s = s.concat("\n");
        }
        proof {
            if i + 1 < n {
                assert(s@ + spec_context_lines(ev, i + 1) =~= header + spec_context_lines(ev, 0));
            } else {
                assert(s@ + spec_context_lines(ev, i + 1) =~= header + spec_context_lines(ev, 0));
            }
        }
    }
    proof {
        assert(spec_context_lines(ev, n as int) =~= Seq::<char>::empty());
        assert(s@ =~= header + spec_context_lines(ev, 0));
    }
    s
}

/// The topics joined for display.
pub open spec fn spec_joined_topics(topics: Seq<Seq<char>>, i: int) -> Seq<char>
    decreases topics.len() - i,
{
    if !(0 <= i < topics.len()) {
        Seq::empty()
    } else if i + 1 < topics.len() {
        topics[i] + ", "@ + spec_joined_topics(topics, i + 1)
    } else {
        topics[i]
    }
}

/// The session block injected after the memory block: the rolling summary,
/// the recent topics and the turn counter. A session without a summary
/// contributes nothing.
pub open spec fn spec_session_block(s: SessionContext) -> Seq<char> {
    if s.conversation_summary@.len() == 0 {
        Seq::empty()
    } else {
        "\n\n[Current conversation context:]\nSummary: "@ + s.conversation_summary@ + "\nTopics: "@
            + spec_joined_topics(crate::session::topic_views(s.recent_topics@), 0) + "\nTurn: "@
            + spec_decimal(s.turn_count as int)
    }
}

/// Formats the session context block.
pub fn format_session_context(ctx: &SessionContext) -> (r: String)
    ensures
        r@ == spec_session_block(*ctx),
{
    if ctx.conversation_summary.as_str().is_empty() {
        return String::new();
    }
    let ghost tv = crate::session::topic_views(ctx.recent_topics@);
    let mut topics = String::new();
    proof {
        assert(topics@ + spec_joined_topics(tv, 0) =~= spec_joined_topics(tv, 0));
    }
    let n = ctx.recent_topics.len();
    for i in it: 0..n
        invariant
            n == ctx.recent_topics@.len(),
            tv == crate::session::topic_views(ctx.recent_topics@),
            tv.len() == n,
            topics@ + spec_joined_topics(tv, i as int) == spec_joined_topics(tv, 0),
    {
        proof {
            assert(tv[i as int] == ctx.recent_topics@[i as int]@);
        }
        topics = topics.concat(ctx.recent_topics[i].as_str());
        if i + 1 < n {
            topics = topics.concat(", ");
        }
        proof {
            assert(topics@ + spec_joined_topics(tv, i + 1) =~= spec_joined_topics(tv, 0));
        }
    }
    proof {
        assert(spec_joined_topics(tv, n as int) =~= Seq::<char>::empty());
        assert(topics@ =~= spec_joined_topics(tv, 0));
    }
    let turn = usize_to_decimal(ctx.turn_count as usize);
    "\n\n[Current conversation context:]\nSummary: ".to_owned().concat(
        ctx.conversation_summary.as_str(),
    ).concat("\nTopics: ").concat(topics.as_str()).concat("\nTurn: ").concat(turn.as_str())
}

} // verus!
