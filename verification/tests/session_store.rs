use gamecall::cache::{CachedCall, SessionStore};
use gamecall::records::Sponsor;

fn store_sponsor(name: &str) -> Sponsor {
    Sponsor {
        id: 1,
        name: name.to_string(),
        user_id: "owner".to_string(),
        active: true,
        background_url: String::new(),
        private_key: "SECRET-REDACTED".to_string(),
        public_key: "PK".to_string(),
        token_mint: "MINT".to_string(),
        original_tokens: 10,
        available_tokens: 10,
        reward_tokens: 1,
        challenge_time: 30,
        system_instruction: String::new(),
        greeting_text: String::new(),
        start_text: String::new(),
        challenge_text: String::new(),
        end_text: String::new(),
        won_text: String::new(),
        lost_text: String::new(),
        rating_threshold: 5,
        initial_funded: true,
    }
}

#[test]
fn get_after_insert_finds_the_session() {
    let mut store = SessionStore::new();
    store.insert("CA1".to_string(), CachedCall::new(store_sponsor("a"), 1));
    store.insert("CA2".to_string(), CachedCall::new(store_sponsor("b"), 2));
    assert_eq!(store.get("CA1").unwrap().sponsor.name, "a");
    assert_eq!(store.get("CA2").unwrap().sponsor.name, "b");
    assert!(store.get("CA3").is_none());
}

#[test]
fn insert_replaces_same_call() {
    let mut store = SessionStore::new();
    store.insert("CA1".to_string(), CachedCall::new(store_sponsor("first"), 1));
    store.insert("CA1".to_string(), CachedCall::new(store_sponsor("second"), 2));
    assert_eq!(store.get("CA1").unwrap().sponsor.name, "second");
}

#[test]
fn second_removal_finds_nothing() {
    let mut store = SessionStore::new();
    store.insert("CA9".to_string(), CachedCall::new(store_sponsor("x"), 1));
    let first = store.remove("CA9");
    assert!(first.is_some());
    assert_eq!(first.unwrap().sponsor.name, "x");
    let second = store.remove("CA9");
    assert!(second.is_none());
    assert!(store.get("CA9").is_none());
}

#[test]
fn removal_leaves_other_calls_alone() {
    let mut store = SessionStore::new();
    store.insert("CA1".to_string(), CachedCall::new(store_sponsor("a"), 1));
    store.insert("CA2".to_string(), CachedCall::new(store_sponsor("b"), 2));
    let removed = store.remove("CA1");
    assert!(removed.is_some());
    assert_eq!(store.get("CA2").unwrap().sponsor.name, "b");
    assert!(store.get("CA1").is_none());
}
