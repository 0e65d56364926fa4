use gamecall::database::Database;
use gamecall::records::{Sponsor, UpdateSponsorArgs, User};

fn funded_sponsor(id_hint: &str, available: i64, reward: i64) -> Sponsor {
    Sponsor {
        id: 0,
        name: format!("sponsor-{}", id_hint),
        user_id: "owner-7".to_string(),
        active: true,
        background_url: "https://cdn.example/bg.mp4".to_string(),
        private_key: "SECRET-REDACTED".to_string(),
        public_key: format!("PK-{}", id_hint),
        token_mint: "MINT".to_string(),
        original_tokens: available,
        available_tokens: available,
        reward_tokens: reward,
        challenge_time: 30,
        system_instruction: "host".to_string(),
        greeting_text: "hello".to_string(),
        start_text: "go {name} {duration}".to_string(),
        challenge_text: "challenge".to_string(),
        end_text: "bye".to_string(),
        won_text: "won {name} {link} {video_url}".to_string(),
        lost_text: "lost {name}".to_string(),
        rating_threshold: 6,
        initial_funded: true,
    }
}

#[test]
fn two_debits_on_an_exactly_funded_sponsor() {
    let mut db = Database::new();
    let stored = db.create_sponsor(funded_sponsor("a", 100, 100));
    let first = db.withdraw_tokens(stored.id);
    assert!(first.is_some());
    assert_eq!(first.unwrap().amount, 100);
    let after_first = db.get_sponsor_by_id(stored.id).unwrap();
    assert_eq!(after_first.available_tokens, 0);
    let second = db.withdraw_tokens(stored.id);
    assert!(second.is_none());
    let after_second = db.get_sponsor_by_id(stored.id).unwrap();
    assert_eq!(after_second.available_tokens, 0);
}

#[test]
fn debit_of_missing_sponsor_changes_nothing() {
    let mut db = Database::new();
    db.create_sponsor(funded_sponsor("a", 50, 10));
    assert!(db.withdraw_tokens(999).is_none());
    assert_eq!(db.sponsors[0].available_tokens, 50);
}

#[test]
fn fresh_caller_starts_at_one_attempt() {
    let mut db = Database::new();
    let user = db.get_or_insert_user_by_phone_number("+15550001", 20000);
    assert_eq!(user.attempts_today, 1);
    assert_eq!(user.last_attempt, 20000);
    assert!(!user.banned);
    assert_eq!(db.users.len(), 1);
}

#[test]
fn known_caller_counts_up() {
    let mut db = Database::new();
    db.get_or_insert_user_by_phone_number("+15550001", 20000);
    let again = db.get_or_insert_user_by_phone_number("+15550001", 20000);
    assert_eq!(again.attempts_today, 2);
    assert_eq!(db.users.len(), 1);
}

#[test]
fn update_user_writes_counter_day_and_ban() {
    let mut db = Database::new();
    db.get_or_insert_user_by_phone_number("+15550001", 20000);
    let edited = User {
        phone_number: "+15550001".to_string(),
        attempts_today: 4,
        last_attempt: 0,
        banned: true,
    };
    db.update_user(&edited, 20001);
    assert_eq!(db.users[0].attempts_today, 4);
    assert_eq!(db.users[0].last_attempt, 20001);
    assert!(db.users[0].banned);
}

#[test]
fn random_sponsor_only_picks_eligible_rows() {
    let mut db = Database::new();
    let mut inactive = funded_sponsor("idle", 100, 10);
    inactive.active = false;
    db.create_sponsor(inactive);
    let mut broke = funded_sponsor("broke", 5, 10);
    broke.active = true;
    db.create_sponsor(broke);
    assert!(db.get_random_sponsor(0).is_none());
    let good = db.create_sponsor(funded_sponsor("good", 100, 10));
    for pick in 0..5usize {
        let chosen = db.get_random_sponsor(pick).unwrap();
        assert_eq!(chosen.id, good.id);
    }
}

#[test]
fn winner_rows_are_stored_and_found_by_key() {
    let mut db = Database::new();
    let w = db.create_winner("Alex".to_string(), 3, "claim-key-1".to_string());
    assert_eq!(w.name, "Alex");
    assert_eq!(w.sponsor_id, 3);
    let found = db.get_winner_by_key("claim-key-1").unwrap();
    assert_eq!(found.id, w.id);
    assert!(db.get_winner_by_key("other").is_none());
}

#[test]
fn attempt_updates_touch_only_matching_rows() {
    let mut db = Database::new();
    let sponsor = db.create_sponsor(funded_sponsor("a", 100, 10));
    let caller = db.get_or_insert_user_by_phone_number("+15550001", 1);
    let other = db.get_or_insert_user_by_phone_number("+15550002", 1);
    db.create_attempt_with_sponsor(&caller, &sponsor, "CA1".to_string(), 1000);
    db.create_attempt_with_sponsor(&other, &sponsor, "CA2".to_string(), 2000);
    db.update_attempt_video("+15550001", "https://v/CA1.mp4".to_string(), "CA1");
    db.update_attempt_winner("+15550001", true, "CA1");
    db.update_attempt_winner_url("+15550001", "https://claim/x".to_string(), "CA1");
    db.update_attempt_judgement("CA2", "close but no".to_string());
    db.update_attempt_twitter_url("https://t/status".to_string(), "CA2");
    let row1 = db.get_attempt_by_sid("CA1").unwrap();
    assert_eq!(row1.video_url, Some("https://v/CA1.mp4".to_string()));
    assert_eq!(row1.is_winner, Some(true));
    assert_eq!(row1.winner_url, "https://claim/x");
    assert_eq!(row1.challenge_status, None);
    let row2 = db.get_attempt_by_sid("CA2").unwrap();
    assert_eq!(row2.video_url, None);
    assert_eq!(row2.challenge_status, Some("close but no".to_string()));
    assert_eq!(row2.twitter_url, Some("https://t/status".to_string()));
}

#[test]
fn latest_attempt_wins_the_phone_lookup() {
    let mut db = Database::new();
    let sponsor = db.create_sponsor(funded_sponsor("a", 100, 10));
    let caller = db.get_or_insert_user_by_phone_number("+15550001", 1);
    db.create_attempt_with_sponsor(&caller, &sponsor, "CA1".to_string(), 1000);
    db.create_attempt_with_sponsor(&caller, &sponsor, "CA2".to_string(), 5000);
    db.create_attempt_with_sponsor(&caller, &sponsor, "CA3".to_string(), 3000);
    let latest = db.get_attempt_result_by_phone_number("+15550001").unwrap();
    assert_eq!(latest.call_sid, "CA2");
    assert!(db.get_attempt_result_by_phone_number("+15559999").is_none());
}

#[test]
fn fourteen_day_window_is_inclusive() {
    let mut db = Database::new();
    let sponsor = db.create_sponsor(funded_sponsor("a", 100, 10));
    let caller = db.get_or_insert_user_by_phone_number("+15550001", 1);
    let now: i64 = 2_000_000_000;
    db.create_attempt_with_sponsor(&caller, &sponsor, "old".to_string(), now - 1_209_600_001);
    db.create_attempt_with_sponsor(&caller, &sponsor, "edge".to_string(), now - 1_209_600_000);
    db.create_attempt_with_sponsor(&caller, &sponsor, "fresh".to_string(), now);
    let recent = db.get_all_attempts_last_14_days(now);
    let sids: Vec<String> = recent.iter().map(|a| a.call_sid.clone()).collect();
    assert_eq!(sids, vec!["edge".to_string(), "fresh".to_string()]);
}

#[test]
fn sponsor_update_rewrites_configurable_fields_only() {
    let mut db = Database::new();
    let stored = db.create_sponsor(funded_sponsor("a", 100, 10));
    let request = UpdateSponsorArgs {
        public_key: stored.public_key.clone(),
        name: "renamed".to_string(),
        active: false,
        background_url: "https://new/bg".to_string(),
        challenge_time: 50,
        system_instruction: "new host".to_string(),
        start_text: "new start".to_string(),
        rating_threshold: 9,
        challenge_text: "new challenge".to_string(),
        user_id: "owner-7".to_string(),
        signature: "sig".to_string(),
    };
    let updated = db.update_sponsor(&request).unwrap();
    assert_eq!(updated.name, "renamed");
    assert_eq!(updated.challenge_time, 50);
    assert_eq!(updated.available_tokens, 100);
    assert_eq!(updated.private_key, stored.private_key);
    assert_eq!(updated.won_text, stored.won_text);
    assert!(db.update_sponsor(&UpdateSponsorArgs { public_key: "nope".to_string(), ..request }).is_none());
}

#[test]
fn activation_marks_active_and_funded() {
    let mut db = Database::new();
    let mut fresh = funded_sponsor("a", 100, 10);
    fresh.active = false;
    fresh.initial_funded = false;
    let stored = db.create_sponsor(fresh);
    db.update_sponsor_to_active(&stored.public_key);
    let after = db.get_sponsor_by_id(stored.id).unwrap();
    assert!(after.active);
    assert!(after.initial_funded);
}

#[test]
fn sponsor_lot_indexes_the_qualifying_rows() {
    let mut db = Database::new();
    db.create_sponsor(funded_sponsor("one", 100, 10));
    let mut idle = funded_sponsor("idle", 100, 10);
    idle.active = false;
    db.create_sponsor(idle);
    db.create_sponsor(funded_sponsor("two", 100, 10));
    let first = db.get_random_sponsor(0).unwrap();
    let second = db.get_random_sponsor(1).unwrap();
    let wrapped = db.get_random_sponsor(2).unwrap();
    assert_eq!(first.name, "sponsor-one");
    assert_eq!(second.name, "sponsor-two");
    assert_eq!(wrapped.name, "sponsor-one");
}
