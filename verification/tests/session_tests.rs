use azera_memory::session::{update_session_after_exchange, SessionContext};

const NOW: i64 = 1_700_000_000;

fn exchange(
    current: Option<SessionContext>,
    topics: Vec<&str>,
    turn: u32,
) -> SessionContext {
    let owned: Vec<String> = topics.into_iter().map(|t| t.to_string()).collect();
    update_session_after_exchange(
        current,
        "chat-1",
        "the user message",
        "the assistant reply",
        "a short summary",
        owned,
        NOW + turn as i64,
    )
}

#[test]
fn fifteen_unique_topics_keep_the_last_ten() {
    let topics: Vec<String> = (1..=15).map(|i| format!("topic-{:02}", i)).collect();
    let refs: Vec<&str> = topics.iter().map(|s| s.as_str()).collect();
    let session = exchange(None, refs, 0);
    let expected: Vec<String> = (6..=15).map(|i| format!("topic-{:02}", i)).collect();
    assert_eq!(session.recent_topics, expected);
}

#[test]
fn topics_accumulate_across_exchanges_without_duplicates() {
    let s1 = exchange(None, vec!["stars", "cats"], 0);
    assert_eq!(s1.recent_topics, vec!["stars", "cats"]);
    assert_eq!(s1.turn_count, 1);

    let s2 = exchange(Some(s1), vec!["cats", "tea"], 1);
    assert_eq!(s2.recent_topics, vec!["stars", "cats", "tea"]);
    assert_eq!(s2.turn_count, 2);
}

#[test]
fn exchange_replaces_summary_and_last_messages() {
    let s = exchange(None, vec![], 0);
    assert_eq!(s.conversation_summary, "a short summary");
    assert_eq!(s.last_user_message, "the user message");
    assert_eq!(s.last_assistant_message, "the assistant reply");
    assert_eq!(s.chat_id, "chat-1");
    assert_eq!(s.turn_count, 1);
}

#[test]
fn eviction_is_oldest_first_in_insertion_order() {
    let first: Vec<&str> = vec!["a", "b", "c", "d", "e", "f", "g", "h", "i", "j"];
    let s1 = exchange(None, first, 0);
    assert_eq!(s1.recent_topics.len(), 10);
    let s2 = exchange(Some(s1), vec!["k", "l"], 1);
    assert_eq!(
        s2.recent_topics,
        vec!["c", "d", "e", "f", "g", "h", "i", "j", "k", "l"]
    );
}
