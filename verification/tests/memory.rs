use benito_core::memory::{ConversationEntry, MemoryStore};

fn filled(n: usize) -> MemoryStore {
    let mut m = MemoryStore::new();
    for i in 0..n {
        m.add_entry("old", "user", &format!("note {}", i), 100 + i as u64);
    }
    m
}

#[test]
fn entries_are_numbered_and_stamped() {
    let mut m = MemoryStore::new();
    m.add_entry("s", "user", "hello", 42);
    m.add_entry("s", "assistant", "hi", 43);
    assert_eq!(
        m.conversations,
        vec![
            ConversationEntry {
                id: "entry_0".to_string(),
                role: "user".to_string(),
                content: "hello".to_string(),
                timestamp: 42,
                session_id: "s".to_string(),
            },
            ConversationEntry {
                id: "entry_1".to_string(),
                role: "assistant".to_string(),
                content: "hi".to_string(),
                timestamp: 43,
                session_id: "s".to_string(),
            },
        ]
    );
}

#[test]
fn a_full_store_drops_its_oldest_entries() {
    let m = filled(1002);
    assert_eq!(m.max_entries, 1000);
    assert_eq!(m.conversations.len(), 1000);
    assert_eq!(m.conversations[0].content, "note 2");
    assert_eq!(m.conversations[999].content, "note 1001");
    assert_eq!(m.conversations[997].id, "entry_999");
    assert_eq!(m.conversations[998].id, "entry_1000");
    assert_eq!(m.conversations[999].id, "entry_1000");
}

#[test]
fn a_smaller_limit_is_met_at_the_next_entry() {
    let mut m = filled(5);
    m.max_entries = 2;
    m.add_entry("old", "user", "last", 1);
    assert_eq!(m.conversations.len(), 2);
    assert_eq!(m.conversations[0].content, "note 4");
    assert_eq!(m.conversations[1].content, "last");
}

#[test]
fn recall_formats_role_time_and_content() {
    let mut m = MemoryStore::new();
    m.add_entry("a", "user", "Hello World", 1_700_000_000);
    assert_eq!(m.recall("hello", "b", 5), vec!["[user] 1700000000: Hello World"]);
}

#[test]
fn recall_ignores_case() {
    let mut m = MemoryStore::new();
    m.add_entry("a", "user", "ÄPFEL and Pears", 0);
    assert_eq!(m.recall("äpfel", "b", 5), vec!["[user] 0: ÄPFEL and Pears"]);
    assert_eq!(m.recall("PEARS", "b", 5).len(), 1);
    assert_eq!(m.recall("plums", "b", 5).len(), 0);
}

#[test]
fn recall_works_both_ways() {
    let mut m = MemoryStore::new();
    m.add_entry("a", "user", "rust", 0);
    assert_eq!(m.recall("Tell me about Rust, please", "b", 5), vec!["[user] 0: rust"]);
}

#[test]
fn recall_leaves_the_current_session_out() {
    let mut m = MemoryStore::new();
    m.add_entry("here", "user", "plan", 1);
    m.add_entry("there", "user", "plan", 2);
    assert_eq!(m.recall("plan", "here", 5), vec!["[user] 2: plan"]);
    assert_eq!(m.recall("plan", "there", 5), vec!["[user] 1: plan"]);
    assert_eq!(m.recall("plan", "", 5), vec!["[user] 2: plan", "[user] 1: plan"]);
}

#[test]
fn recall_gives_the_recent_entries_newest_first() {
    let m = filled(7);
    assert_eq!(
        m.recall("note", "new", 3),
        vec!["[user] 106: note 6", "[user] 105: note 5", "[user] 104: note 4"]
    );
    assert_eq!(m.recall("note", "new", 0).len(), 0);
    assert_eq!(m.recall("note", "new", 100).len(), 7);
}

#[test]
fn recall_clips_long_content() {
    let mut m = MemoryStore::new();
    m.add_entry("a", "tool", &"ü".repeat(300), 9);
    assert_eq!(m.recall("ü", "b", 1), vec![format!("[tool] 9: {}", "ü".repeat(200))]);
}

#[test]
fn recall_with_given_lower_case_forms() {
    let mut m = MemoryStore::new();
    m.add_entry("a", "user", "ONE", 1);
    m.add_entry("a", "user", "TWO", 2);
    let lower = vec!["one".to_string(), "two".to_string()];
    assert_eq!(m.recall_lowered("one", &lower, "b", 5), vec!["[user] 1: ONE"]);
    let swapped = vec!["two".to_string(), "one".to_string()];
    assert_eq!(m.recall_lowered("one", &swapped, "b", 5), vec!["[user] 2: TWO"]);
    assert_eq!(m.recall_lowered("one", &lower, "a", 5).len(), 0);
}

#[test]
fn an_empty_query_matches_everything() {
    assert_eq!(filled(2).recall("", "new", 5).len(), 2);
}

#[test]
fn clearing_forgets_everything() {
    let mut m = filled(3);
    m.clear();
    assert_eq!(m.conversations.len(), 0);
    assert_eq!(m.max_entries, 1000);
    assert_eq!(m.recall("note", "new", 5).len(), 0);
    m.add_entry("s", "user", "x", 0);
    assert_eq!(m.conversations[0].id, "entry_0");
}
