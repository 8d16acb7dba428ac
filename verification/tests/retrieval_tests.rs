use azera_memory::retrieval::{
    merge_hybrid, merge_search_results, ChatHit, LexicalHit, SemanticHit, SourceKind,
};

fn semantic(id: &str, score_milli: u32, timestamp: Option<i64>, content: &str) -> SemanticHit {
    SemanticHit {
        id: id.to_string(),
        score_milli,
        timestamp,
        role: "assistant".to_string(),
        memory_type: "conversation".to_string(),
        content: content.to_string(),
    }
}

fn lexical(id: &str, content: &str) -> LexicalHit {
    LexicalHit {
        id: id.to_string(),
        memory_type: "fact".to_string(),
        title: "note".to_string(),
        content: content.to_string(),
    }
}

const NOW: i64 = 1_700_000_000;

#[test]
fn score_gate_is_inclusive_at_threshold() {
    // 0.44 is excluded; 0.45 is included (boundary inclusive).
    let sems = vec![
        semantic("low", 440, None, "a memory scored just under the floor"),
        semantic("ok", 450, None, "a memory scored exactly at the floor"),
    ];
    let merged = merge_hybrid(&sems, &vec![], &vec![], &None, NOW);
    assert_eq!(merged.len(), 1);
    assert_eq!(merged[0].id, "ok");
    assert_eq!(merged[0].score_milli, 450);
}

#[test]
fn echo_window_excludes_fresh_memories() {
    // Ten seconds old: suppressed as an echo. Two minutes old: included.
    let fresh = semantic("fresh", 900, Some(NOW - 10), "what was just said");
    let merged = merge_hybrid(&vec![fresh], &vec![], &vec![], &None, NOW);
    assert!(merged.is_empty());

    let old = semantic("old", 450, Some(NOW - 120), "what was said a while ago");
    let merged = merge_hybrid(&vec![old], &vec![], &vec![], &None, NOW);
    assert_eq!(merged.len(), 1);
    assert_eq!(merged[0].id, "old");
}

#[test]
fn missing_timestamp_passes_echo_gate() {
    let hit = semantic("untimed", 500, None, "a memory without a timestamp");
    let merged = merge_hybrid(&vec![hit], &vec![], &vec![], &None, NOW);
    assert_eq!(merged.len(), 1);
}

#[test]
fn dedup_prefers_semantic_over_lexical() {
    // Same first-100-char content under different ids: exactly one survives,
    // and it is the semantic-sourced one.
    let content = "the user's cat is named Biscuit";
    let sems = vec![semantic("vec-1", 800, None, content)];
    let lexs = vec![lexical("doc-9", content)];
    let merged = merge_hybrid(&sems, &lexs, &vec![], &None, NOW);
    assert_eq!(merged.len(), 1);
    assert_eq!(merged[0].source, SourceKind::Semantic);
    assert_eq!(merged[0].id, "vec-1");
}

#[test]
fn merge_orders_semantic_then_lexical() {
    // Semantic [A(0.9), B(0.5)] and lexical [C, A-duplicate-by-content]
    // merge to [A, B, C], with A kept once, from the semantic leg.
    let a = "memory A: the observatory trip";
    let b = "memory B: the broken telescope";
    let c = "memory C: the star chart gift";
    let sems = vec![semantic("a", 900, None, a), semantic("b", 500, None, b)];
    let lexs = vec![lexical("c", c), lexical("a-dup", a)];
    let merged = merge_hybrid(&sems, &lexs, &vec![], &None, NOW);
    assert_eq!(merged.len(), 3);
    assert_eq!(merged[0].content, a);
    assert_eq!(merged[0].source, SourceKind::Semantic);
    assert_eq!(merged[0].score_milli, 900);
    assert_eq!(merged[1].content, b);
    assert_eq!(merged[1].source, SourceKind::Semantic);
    assert_eq!(merged[2].content, c);
    assert_eq!(merged[2].source, SourceKind::Lexical);
    assert_eq!(merged[2].score_milli, 500);
}

#[test]
fn excluded_chat_is_skipped() {
    let chats = vec![
        ChatHit {
            id: "current".to_string(),
            title: "today".to_string(),
            messages_text: "the conversation happening right now".to_string(),
        },
        ChatHit {
            id: "older".to_string(),
            title: "last week".to_string(),
            messages_text: "a conversation from last week".to_string(),
        },
    ];
    let exclude = Some("current".to_string());
    let merged = merge_hybrid(&vec![], &vec![], &chats, &exclude, NOW);
    assert_eq!(merged.len(), 1);
    assert_eq!(merged[0].id, "older");
    assert_eq!(merged[0].source, SourceKind::Chat);
    assert_eq!(merged[0].label, "last week");
}

#[test]
fn content_is_capped_per_source() {
    let long_content = "x".repeat(1000);
    let sems = vec![semantic("s", 600, None, &long_content)];
    let merged = merge_hybrid(&sems, &vec![], &vec![], &None, NOW);
    assert_eq!(merged[0].content.chars().count(), 400);

    let lexs = vec![lexical("l", &("y".repeat(1000)))];
    let merged = merge_hybrid(&vec![], &lexs, &vec![], &None, NOW);
    assert_eq!(merged[0].content.chars().count(), 500);
}

#[test]
fn search_merge_dedups_by_content_prefix() {
    // One fusion policy everywhere: duplicates are judged by the first
    // hundred characters of content, never by record id, since the two
    // stores' id spaces differ.
    let sems = vec![semantic("vec-1", 720, None, "shared record")];
    let lexs = vec![
        lexical("doc-7", "shared record"),
        lexical("doc-8", "another fact"),
        lexical("doc-9", "another fact"),
    ];
    let merged = merge_search_results(&sems, &lexs);
    assert_eq!(merged.len(), 2);
    // The semantic copy wins over the lexical restatement under another id,
    // and of the two identical lexical hits the earlier one is kept.
    assert_eq!(merged[0].id, "vec-1");
    assert_eq!(merged[0].source, SourceKind::Semantic);
    assert_eq!(merged[0].score_milli, 720);
    assert_eq!(merged[1].id, "doc-8");
    assert_eq!(merged[1].source, SourceKind::Lexical);
    assert_eq!(merged[1].score_milli, 500);
}
