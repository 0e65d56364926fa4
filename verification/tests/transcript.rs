use gamecall::cache::{extract_message_content, CachedCall, ChatMessage};
use gamecall::records::Sponsor;

fn sample_sponsor() -> Sponsor {
    Sponsor {
        id: 7,
        name: "Acme".to_string(),
        user_id: "owner-1".to_string(),
        active: true,
        background_url: "https://cdn.example/bg.mp4".to_string(),
        private_key: "SECRET-REDACTED".to_string(),
        public_key: "PUBKEY1111".to_string(),
        token_mint: "MINT1111".to_string(),
        original_tokens: 1000,
        available_tokens: 1000,
        reward_tokens: 100,
        challenge_time: 45,
        system_instruction: "You are the host.".to_string(),
        greeting_text: "Welcome caller!".to_string(),
        start_text: "Hello {name}, you have {duration} seconds.".to_string(),
        challenge_text: "Make me laugh".to_string(),
        end_text: "Time is up!".to_string(),
        won_text: "Well done {name}: {link} and {video_url}".to_string(),
        lost_text: "Sorry {name}, not this time.".to_string(),
        rating_threshold: 7,
        initial_funded: true,
    }
}

#[test]
fn timeline_ends_never_precede_starts() {
    let mut call = CachedCall::new(sample_sponsor(), 1000);
    call.add_system_message(ChatMessage::System("inst".to_string()), 1000);
    call.add_system_message(ChatMessage::Assistant("hi".to_string()), 1000);
    call.end_last_message(1500);
    call.add_user_message(ChatMessage::User("hey".to_string()), 2000);
    call.add_system_message(ChatMessage::Assistant("go on".to_string()), 2500);
    call.end_last_message(3000);
    call.add_user_message(ChatMessage::User("done".to_string()), 3500);
    for span in &call.timestamps {
        assert!(span.start <= span.end);
    }
    for pair in call.timestamps.windows(2) {
        assert!(pair[0].end <= pair[1].start);
    }
}

#[test]
fn closed_entry_meets_next_user_entry() {
    let mut call = CachedCall::new(sample_sponsor(), 0);
    call.add_system_message(ChatMessage::Assistant("greeting".to_string()), 10);
    call.end_last_message(40);
    call.add_user_message(ChatMessage::User("answer".to_string()), 90);
    let n = call.timestamps.len();
    assert_eq!(n, 2);
    assert_eq!(call.timestamps[0].end, 40);
    assert_eq!(call.timestamps[1].start, 40);
    assert_eq!(call.timestamps[1].end, 90);
}

#[test]
fn user_entry_on_empty_transcript_starts_now() {
    let mut call = CachedCall::new(sample_sponsor(), 5);
    call.add_user_message(ChatMessage::User("first".to_string()), 25);
    assert_eq!(call.timestamps[0].start, 25);
    assert_eq!(call.timestamps[0].end, 25);
}

#[test]
fn close_on_empty_transcript_is_noop() {
    let mut call = CachedCall::new(sample_sponsor(), 5);
    call.end_last_message(10);
    assert!(call.timestamps.is_empty());
    assert!(call.messages.is_empty());
}

#[test]
fn collect_skips_system_entries() {
    let mut call = CachedCall::new(sample_sponsor(), 0);
    call.add_system_message(ChatMessage::System("instruction".to_string()), 1);
    call.add_system_message(ChatMessage::Assistant("hello".to_string()), 2);
    call.add_user_message(ChatMessage::User("hi there".to_string()), 3);
    let collected = call.get_cached_messages();
    assert_eq!(collected.len(), 2);
    assert_eq!(collected[0].message, "hello");
    assert_eq!(collected[0].timespan.start, 2);
    assert_eq!(collected[1].message, "hi there");
    assert_eq!(collected[1].timespan.end, 3);
}

#[test]
fn extract_content_by_role() {
    assert_eq!(
        extract_message_content(&ChatMessage::User("u".to_string())),
        Some("u".to_string())
    );
    assert_eq!(
        extract_message_content(&ChatMessage::Assistant("a".to_string())),
        Some("a".to_string())
    );
    assert_eq!(extract_message_content(&ChatMessage::System("s".to_string())), None);
}
