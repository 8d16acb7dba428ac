use azera_memory::backup::ServiceType;
use azera_memory::context::{format_context, format_session_context, usize_to_decimal};
use azera_memory::retrieval::{merge_hybrid, SemanticHit};
use azera_memory::session::{
    build_exchange_summary, topics_of_message, update_session_after_exchange,
};
use azera_memory::llm::{
    build_dream_prompt, build_messages, build_mood_prompt, build_reflection_prompt,
    default_system_prompt, mood_value_for, normalize_mood_reply,
};
use azera_memory::memory::{
    build_memory_payload, prepare_memory_write, rfc3339_utc, utc_date, MemoryRecord, MemoryType,
    PayloadField,
};
use azera_memory::models::{default_color, default_limit, default_model, default_tts_model, default_true, ChatMessage};
use azera_memory::state::mood_label_for;

#[test]
fn mood_reply_is_normalized_to_the_vocabulary() {
    assert_eq!(normalize_mood_reply("  HAPPY!  "), "happy");
    assert_eq!(normalize_mood_reply("I'd say rather melancholy today"), "melancholy");
    assert_eq!(normalize_mood_reply("unintelligible"), "content");
    assert_eq!(normalize_mood_reply(""), "content");
    // The first vocabulary label mentioned wins.
    assert_eq!(normalize_mood_reply("happy, maybe excited"), "happy");
}

#[test]
fn mood_values_follow_the_fixed_table() {
    assert_eq!(mood_value_for("happy"), 850_000);
    assert_eq!(mood_value_for("excited"), 900_000);
    assert_eq!(mood_value_for("content"), 700_000);
    assert_eq!(mood_value_for("calm"), 650_000);
    assert_eq!(mood_value_for("curious"), 750_000);
    assert_eq!(mood_value_for("thoughtful"), 600_000);
    assert_eq!(mood_value_for("melancholy"), 300_000);
    assert_eq!(mood_value_for("concerned"), 400_000);
    assert_eq!(mood_value_for("anything else"), 600_000);
}

#[test]
fn mood_labels_follow_the_thresholds() {
    assert_eq!(mood_label_for(750_000), "happy");
    assert_eq!(mood_label_for(700_000), "content");
    assert_eq!(mood_label_for(400_000), "thoughtful");
    assert_eq!(mood_label_for(300_000), "melancholy");
}

#[test]
fn messages_wrap_history_between_system_and_user() {
    let history = vec![
        ChatMessage {
            id: "m1".to_string(),
            role: "user".to_string(),
            content: "hi".to_string(),
            timestamp: None,
            user_persona: None,
            ai_persona: None,
            model: None,
            mood: None,
        },
        ChatMessage {
            id: "m2".to_string(),
            role: "assistant".to_string(),
            content: "hello".to_string(),
            timestamp: None,
            user_persona: None,
            ai_persona: None,
            model: None,
            mood: None,
        },
    ];
    let msgs = build_messages("be kind", &history, "how are you?");
    assert_eq!(msgs.len(), 4);
    assert_eq!(msgs[0].role, "system");
    assert_eq!(msgs[0].content, "be kind");
    assert_eq!(msgs[1].role, "user");
    assert_eq!(msgs[1].content, "hi");
    assert_eq!(msgs[2].role, "assistant");
    assert_eq!(msgs[3].role, "user");
    assert_eq!(msgs[3].content, "how are you?");
}

#[test]
fn prompts_embed_their_inputs() {
    let d = build_dream_prompt("moonlight", "recent talk");
    assert!(d.contains("'moonlight'"));
    assert!(d.contains("recent talk"));
    let r = build_reflection_prompt("the day");
    assert!(r.starts_with("Based on the following context"));
    assert!(r.contains("the day"));
    assert!(default_system_prompt().contains("Azera"));
}

#[test]
fn mood_prompt_names_the_vocabulary_and_caps_the_text() {
    let p = build_mood_prompt("I feel wonderful today");
    assert!(p.starts_with("Analyze the emotional tone"));
    assert!(p.contains("happy, content, thoughtful, melancholy, curious, excited, calm, concerned"));
    assert!(p.contains("\"I feel wonderful today\""));
    assert!(p.ends_with("Respond with only the single mood word, nothing else."));
    // The analyzed text is capped at five hundred characters.
    let long = "y".repeat(800);
    let capped = build_mood_prompt(&long);
    assert!(capped.contains(&"y".repeat(500)));
    assert!(!capped.contains(&"y".repeat(501)));
}

#[test]
fn timestamps_format_as_utc() {
    assert_eq!(rfc3339_utc(0), "1970-01-01T00:00:00+00:00");
    assert_eq!(utc_date(0), "1970-01-01");
    assert_eq!(utc_date(86_400), "1970-01-02");
    assert_eq!(rfc3339_utc(1_700_000_000), "2023-11-14T22:13:20+00:00");
    assert_eq!(utc_date(1_700_000_000), "2023-11-14");
}

#[test]
fn memory_payload_carries_reserved_fields_last() {
    let metadata = vec![PayloadField { key: "role".to_string(), value: "user".to_string() }];
    let payload = build_memory_payload(metadata, "remember this", MemoryType::Fact, 0);
    assert_eq!(payload.len(), 4);
    assert_eq!(payload[0].key, "role");
    assert_eq!(payload[1].key, "content");
    assert_eq!(payload[1].value, "remember this");
    assert_eq!(payload[2].key, "type");
    assert_eq!(payload[2].value, "fact");
    assert_eq!(payload[3].key, "timestamp");
    assert_eq!(payload[3].value, "1970-01-01T00:00:00+00:00");
}

#[test]
fn memory_write_mirrors_the_id() {
    let record = MemoryRecord {
        id: "mem-1".to_string(),
        content: "a fact".to_string(),
        memory_type: MemoryType::Dream,
        owner_persona_id: Some("azera".to_string()),
        chat_id: None,
        branch_id: None,
        timestamp: 86_400,
    };
    let (write, doc) = prepare_memory_write(&record, vec![]);
    assert_eq!(write.collection, "azera_memory");
    assert_eq!(write.id, "mem-1");
    assert_eq!(doc.id, "mem-1");
    assert_eq!(doc.memory_type, "dream");
    assert_eq!(doc.date, "1970-01-02");
    assert_eq!(doc.persona_id, Some("azera".to_string()));
}

#[test]
fn memory_types_name_and_parse() {
    assert_eq!(MemoryType::Dream.name(), "dream");
    assert_eq!(MemoryType::parse("reflection"), MemoryType::Reflection);
    assert_eq!(MemoryType::parse("emotion"), MemoryType::Emotion);
    assert_eq!(MemoryType::parse("fact"), MemoryType::Fact);
    assert_eq!(MemoryType::parse("nonsense"), MemoryType::Conversation);
}

#[test]
fn backup_services_have_folders() {
    let all = ServiceType::all();
    assert_eq!(all.len(), 6);
    assert_eq!(all[0].folder_name(), "cockroach");
    assert_eq!(all[5].folder_name(), "ollama");
}

#[test]
fn decimals_print_plainly() {
    assert_eq!(usize_to_decimal(0), "0");
    assert_eq!(usize_to_decimal(7), "7");
    assert_eq!(usize_to_decimal(10), "10");
    assert_eq!(usize_to_decimal(90210), "90210");
}

#[test]
fn context_block_numbers_and_tags_entries() {
    let sems = vec![
        SemanticHit {
            id: "a".to_string(),
            score_milli: 800,
            timestamp: None,
            role: "user".to_string(),
            memory_type: "conversation".to_string(),
            content: "the cat is named Biscuit".to_string(),
        },
    ];
    let merged = merge_hybrid(&sems, &vec![], &vec![], &None, 1_700_000_000);
    let block = format_context(&merged);
    assert_eq!(
        block,
        "\n\n[Relevant memories from past conversations:]\n1. [semantic:user] the cat is named Biscuit"
    );
    assert_eq!(format_context(&vec![]), "");
}

#[test]
fn session_block_reports_summary_topics_and_turn() {
    let topics = vec!["stars".to_string(), "tea".to_string()];
    let session = update_session_after_exchange(
        None,
        "chat-1",
        "hello there",
        "hello",
        "greeted each other",
        topics,
        1_700_000_000,
    );
    let block = format_session_context(&session);
    assert_eq!(
        block,
        "\n\n[Current conversation context:]\nSummary: greeted each other\nTopics: stars, tea\nTurn: 1"
    );
}

#[test]
fn topics_come_from_long_words_lowercased() {
    // Length is judged on the raw word, so "moon!" qualifies and is then
    // stripped of its punctuation.
    let topics = topics_of_message("Tell me about Jupiter, Saturn and the moon!");
    assert_eq!(topics, vec!["about", "jupiter", "saturn", "moon"]);
    assert_eq!(topics_of_message("a b c"), Vec::<String>::new());
    // At most five candidate words are considered.
    let many = topics_of_message("alpha1 bravo2 charlie delta3 echo45 foxtrot golfy");
    assert_eq!(many.len(), 5);
}

#[test]
fn exchange_summary_caps_both_sides() {
    let long = "z".repeat(300);
    let summary = build_exchange_summary("what is this?", &long);
    assert!(summary.starts_with("User asked about: what is this?. Assistant responded regarding: "));
    assert!(summary.ends_with("."));
    let expected_len =
        "User asked about: ".len() + 13 + ". Assistant responded regarding: ".len() + 200 + 1;
    assert_eq!(summary.len(), expected_len);
}

#[test]
fn request_defaults_match_the_api() {
    assert!(default_true());
    assert_eq!(default_model(), "llama3.2");
    assert_eq!(default_color(), "#6b7280");
    assert_eq!(default_tts_model(), "qwen3-tts");
    assert_eq!(default_limit(), 5);
}
