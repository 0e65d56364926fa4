use gamecall::cache::SessionStore;
use gamecall::database::Database;
use gamecall::game::{
    GameConfig, GameError, StartOutcome, begin_challenge, challenge_respond, end_call,
    generate_name_response, judge_and_settle, normalize_extracted_name, rating_meets_threshold,
    start_call, take_session_for_judging, update_conversation_cache,
};
use gamecall::records::{JudgeResponse, Sponsor, User};

fn flow_config() -> GameConfig {
    GameConfig {
        daily_response_limit: 6,
        daily_attempt_limit: 3,
        voice: "host-voice".to_string(),
        language: "en-US".to_string(),
        speech_model: "phone_call".to_string(),
        gather_timeout_seconds: 5,
        out_of_attempts_text: "You used all $attempts attempts today.".to_string(),
        name_not_found_text: "Sorry, what was your name?".to_string(),
        video_base_url: "https://videos.example/".to_string(),
        claim_base_url: "https://claim.example/?key=".to_string(),
    }
}

fn flow_sponsor(available: i64, reward: i64) -> Sponsor {
    Sponsor {
        id: 0,
        name: "Acme".to_string(),
        user_id: "owner".to_string(),
        active: true,
        background_url: "https://cdn.example/bg.mp4".to_string(),
        private_key: "SECRET-REDACTED".to_string(),
        public_key: "PK-A".to_string(),
        token_mint: "MINT-A".to_string(),
        original_tokens: available,
        available_tokens: available,
        reward_tokens: reward,
        challenge_time: 45,
        system_instruction: "You are the game host.".to_string(),
        greeting_text: "Welcome! Tell me your name.".to_string(),
        start_text: "Lets go {name}, you have {duration} seconds!".to_string(),
        challenge_text: "Make the host laugh".to_string(),
        end_text: "Time is up, thanks for playing!".to_string(),
        won_text: "Congrats {name}! Claim: {link} Video: {video_url}".to_string(),
        lost_text: "Sorry {name}, better luck next time.".to_string(),
        rating_threshold: 7,
        initial_funded: true,
    }
}

#[test]
fn counter_resets_on_a_new_day() {
    let mut db = Database::new();
    db.create_sponsor(flow_sponsor(1000, 100));
    let mut store = SessionStore::new();
    let yesterday: i64 = 19999;
    let today: i64 = 20000;
    db.get_or_insert_user_by_phone_number("+15550001", yesterday);
    let edited = User {
        phone_number: "+15550001".to_string(),
        attempts_today: 5,
        last_attempt: yesterday,
        banned: false,
    };
    db.update_user(&edited, yesterday);
    let outcome = start_call(
        &mut db,
        &mut store,
        &flow_config(),
        "+15550001",
        "CA-reset".to_string(),
        today,
        1000,
        0,
    );
    assert!(matches!(outcome, Ok(StartOutcome::Started(_))));
    assert_eq!(db.users[0].attempts_today, 1);
    assert_eq!(db.users[0].last_attempt, today);
}

#[test]
fn banned_caller_leaves_no_trace_but_the_counter() {
    let mut db = Database::new();
    db.create_sponsor(flow_sponsor(1000, 100));
    let mut store = SessionStore::new();
    db.get_or_insert_user_by_phone_number("+15550002", 100);
    let banned = User {
        phone_number: "+15550002".to_string(),
        attempts_today: 1,
        last_attempt: 100,
        banned: true,
    };
    db.update_user(&banned, 100);
    let outcome = start_call(
        &mut db,
        &mut store,
        &flow_config(),
        "+15550002",
        "CA-banned".to_string(),
        100,
        1000,
        0,
    );
    assert!(matches!(outcome, Ok(StartOutcome::Rejected)));
    assert!(db.attempts.is_empty());
    assert!(store.get("CA-banned").is_none());
}

#[test]
fn over_the_response_limit_is_rejected_silently() {
    let mut db = Database::new();
    db.create_sponsor(flow_sponsor(1000, 100));
    let mut store = SessionStore::new();
    let config = flow_config();
    for i in 0..7 {
        let sid = format!("CA-{}", i);
        start_call(&mut db, &mut store, &config, "+15550003", sid, 1, 1000, 0).unwrap();
    }
    let outcome = start_call(
        &mut db,
        &mut store,
        &config,
        "+15550003",
        "CA-final".to_string(),
        1,
        1000,
        0,
    );
    assert!(matches!(outcome, Ok(StartOutcome::Rejected)));
    assert_eq!(db.users[0].attempts_today, 8);
}

#[test]
fn over_the_attempt_limit_hears_the_limit_message() {
    let mut db = Database::new();
    db.create_sponsor(flow_sponsor(1000, 100));
    let mut store = SessionStore::new();
    let config = flow_config();
    for i in 0..3 {
        let sid = format!("CB-{}", i);
        start_call(&mut db, &mut store, &config, "+15550004", sid, 1, 1000, 0).unwrap();
    }
    let attempts_before = db.attempts.len();
    let outcome = start_call(
        &mut db,
        &mut store,
        &config,
        "+15550004",
        "CB-final".to_string(),
        1,
        1000,
        0,
    );
    assert!(matches!(outcome, Ok(StartOutcome::OutOfAttempts)));
    assert_eq!(db.attempts.len(), attempts_before);
}

#[test]
fn no_eligible_sponsor_is_an_error() {
    let mut db = Database::new();
    let mut store = SessionStore::new();
    let outcome = start_call(
        &mut db,
        &mut store,
        &flow_config(),
        "+15550005",
        "CC-1".to_string(),
        1,
        1000,
        0,
    );
    assert!(matches!(outcome, Err(GameError::NoEligibleSponsor)));
    assert!(db.attempts.is_empty());
}

#[test]
fn name_normalization_treats_null_as_missing() {
    assert_eq!(normalize_extracted_name("null".to_string()), None);
    assert_eq!(normalize_extracted_name("Alex".to_string()), Some("Alex".to_string()));
}

#[test]
fn name_response_substitutes_name_and_duration() {
    let sponsor = flow_sponsor(1000, 100);
    let config = flow_config();
    let (_, spoken) = generate_name_response(&Some("Alex".to_string()), &sponsor, &config);
    assert_eq!(spoken, "Lets go Alex, you have 45 seconds!");
    let (_, retry) = generate_name_response(&None, &sponsor, &config);
    assert_eq!(retry, "Sorry, what was your name?");
}

#[test]
fn full_call_that_wins_and_settles() {
    let mut db = Database::new();
    let stored = db.create_sponsor(flow_sponsor(1000, 100));
    let mut store = SessionStore::new();
    let config = flow_config();
    let phone = "+15550100";
    let sid = "CA-win";

    let outcome = start_call(
        &mut db,
        &mut store,
        &config,
        phone,
        sid.to_string(),
        20000,
        1_000,
        0,
    )
    .unwrap();
    let sponsor = match outcome {
        StartOutcome::Started(s) => s,
        _ => panic!("expected a started game"),
    };
    assert_eq!(sponsor.id, stored.id);
    assert_eq!(db.users[0].attempts_today, 1);
    assert_eq!(db.attempts.len(), 1);
    assert_eq!(db.attempts[0].call_sid, sid);

    let name = normalize_extracted_name("Alex".to_string());
    assert_eq!(name, Some("Alex".to_string()));
    let (_, spoken) = generate_name_response(&name, &sponsor, &config);
    update_conversation_cache(
        &mut store,
        sid,
        "I am Alex".to_string(),
        name,
        spoken,
        2_000,
    )
    .unwrap();
    assert_eq!(store.get(sid).unwrap().name, "Alex");

    let challenge_time = begin_challenge(&mut store, sid, 3_000).unwrap();
    assert_eq!(challenge_time, 45);

    challenge_respond(&mut store, sid, "joke one".to_string(), "ha".to_string(), 4_000).unwrap();
    challenge_respond(&mut store, sid, "joke two".to_string(), "hah".to_string(), 5_000).unwrap();
    challenge_respond(&mut store, sid, "joke three".to_string(), "haha".to_string(), 6_000)
        .unwrap();

    // The deadline fires and redirects the call to the end stage.
    let end_twiml = end_call(&mut store, sid, &config, 7_000).unwrap();
    assert!(end_twiml.as_twiml().contains("Time is up, thanks for playing!"));

    let session = take_session_for_judging(&mut store, sid, 8_000).unwrap();
    assert!(take_session_for_judging(&mut store, sid, 8_001).is_none());

    let judged = JudgeResponse {
        won_prize: true,
        rating: 8,
        explanation: "funny enough".to_string(),
    };
    assert!(rating_meets_threshold(judged.rating, session.sponsor.rating_threshold));

    let settlement = judge_and_settle(
        &mut db,
        &session,
        &judged,
        phone,
        sid,
        "winner-uuid-1".to_string(),
        "RCV-PRIVATE".to_string(),
        "RCV-PUBLIC".to_string(),
        &config,
    );
    assert!(settlement.is_winner);
    assert_eq!(db.get_sponsor_by_id(stored.id).unwrap().available_tokens, 900);
    assert_eq!(db.winners.len(), 1);
    assert_eq!(db.winners[0].name, "Alex");
    assert_eq!(db.winners[0].key, "winner-uuid-1");
    let row = db.get_attempt_by_sid(sid).unwrap();
    assert_eq!(row.is_winner, Some(true));
    assert_eq!(row.challenge_status, Some("funny enough".to_string()));
    assert_eq!(row.video_url, Some("https://videos.example/CA-win.mp4".to_string()));
    assert_eq!(row.winner_url, "https://claim.example/?key=RCV-PRIVATE");
    let transfer = settlement.transfer.unwrap();
    assert_eq!(transfer.amount, 100);
    assert_eq!(transfer.receiver_public_key, "RCV-PUBLIC");
    assert_eq!(transfer.token_mint, "MINT-A");
    assert!(settlement.sms_body.contains("https://claim.example/?key=RCV-PRIVATE"));
    assert!(settlement.sms_body.contains("Alex"));
    assert!(settlement.sms_body.contains("https://videos.example/CA-win.mp4"));
}

#[test]
fn winning_verdict_without_funds_ends_as_loss() {
    let mut db = Database::new();
    let stored = db.create_sponsor(flow_sponsor(1000, 100));
    let mut store = SessionStore::new();
    let config = flow_config();
    let phone = "+15550101";
    let sid = "CA-broke";

    start_call(&mut db, &mut store, &config, phone, sid.to_string(), 1, 1_000, 0).unwrap();
    update_conversation_cache(
        &mut store,
        sid,
        "I am Sam".to_string(),
        Some("Sam".to_string()),
        "go".to_string(),
        2_000,
    )
    .unwrap();
    begin_challenge(&mut store, sid, 3_000).unwrap();
    challenge_respond(&mut store, sid, "try".to_string(), "hm".to_string(), 4_000).unwrap();
    end_call(&mut store, sid, &config, 5_000).unwrap();
    let session = take_session_for_judging(&mut store, sid, 6_000).unwrap();

    // The sponsor's balance drops below one reward before the debit runs.
    for _ in 0..9 {
        db.withdraw_tokens(stored.id).unwrap();
    }
    assert!(db.withdraw_tokens(stored.id).is_some());
    assert_eq!(db.get_sponsor_by_id(stored.id).unwrap().available_tokens, 0);

    let judged = JudgeResponse {
        won_prize: true,
        rating: 9,
        explanation: "brilliant".to_string(),
    };
    let settlement = judge_and_settle(
        &mut db,
        &session,
        &judged,
        phone,
        sid,
        "winner-uuid-2".to_string(),
        "RCV-PRIVATE".to_string(),
        "RCV-PUBLIC".to_string(),
        &config,
    );
    assert!(!settlement.is_winner);
    assert!(settlement.transfer.is_none());
    assert!(settlement.claim_link.is_none());
    assert_eq!(settlement.sms_body, "Sorry Sam, better luck next time.");
    assert!(db.winners.is_empty());
    let row = db.get_attempt_by_sid(sid).unwrap();
    assert_eq!(row.is_winner, Some(false));
}

#[test]
fn lost_verdict_sends_the_lose_text() {
    let mut db = Database::new();
    db.create_sponsor(flow_sponsor(1000, 100));
    let mut store = SessionStore::new();
    let config = flow_config();
    start_call(&mut db, &mut store, &config, "+15550102", "CA-l".to_string(), 1, 1_000, 0)
        .unwrap();
    update_conversation_cache(
        &mut store,
        "CA-l",
        "name".to_string(),
        Some("Kim".to_string()),
        "hi".to_string(),
        2_000,
    )
    .unwrap();
    let session = take_session_for_judging(&mut store, "CA-l", 3_000).unwrap();
    let judged = JudgeResponse {
        won_prize: false,
        rating: 2,
        explanation: "flat".to_string(),
    };
    let settlement = judge_and_settle(
        &mut db,
        &session,
        &judged,
        "+15550102",
        "CA-l",
        "k".to_string(),
        "p".to_string(),
        "q".to_string(),
        &config,
    );
    assert!(!settlement.is_winner);
    assert_eq!(settlement.sms_body, "Sorry Kim, better luck next time.");
    assert_eq!(db.get_sponsor_by_id(1).unwrap().available_tokens, 1000);
}

#[test]
fn missing_session_is_reported_not_fabricated() {
    let mut store = SessionStore::new();
    let err = update_conversation_cache(
        &mut store,
        "CA-none",
        "x".to_string(),
        None,
        "y".to_string(),
        1,
    );
    assert_eq!(err, Err(GameError::MissingSession));
    assert_eq!(begin_challenge(&mut store, "CA-none", 1), Err(GameError::MissingSession));
}

#[test]
fn rating_threshold_gates_the_richer_background() {
    assert!(rating_meets_threshold(8, 7));
    assert!(rating_meets_threshold(7, 7));
    assert!(!rating_meets_threshold(6, 7));
    assert!(rating_meets_threshold(0, 0));
}
