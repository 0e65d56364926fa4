use gamecall::api::{
    ApiError, activate_sponsor, attempt_list, build_sponsor, check_token, launchpad,
    sponsor_list, trim_blanks, update_sponsor, verify, verify_winner,
};
use gamecall::database::Database;
use gamecall::records::{
    Secrets, Sponsor, SponsorArgs, UpdateSponsorArgs, WinnerRequest,
};

fn sponsor_args() -> SponsorArgs {
    SponsorArgs {
        name: "  Acme Corp  ".to_string(),
        user_id: " owner-9 ".to_string(),
        background_url: " https://cdn.example/bg.mp4 ".to_string(),
        token_mint: " MINT-9 ".to_string(),
        original_tokens: 500,
        reward_tokens: 50,
        challenge_time: 90,
        system_instruction: "be the host".to_string(),
        challenge: "Sing a song".to_string(),
        rating_threshold: 6,
        transaction: "b64tx".to_string(),
    }
}

fn plain_secrets() -> Secrets {
    Secrets {
        global_url: "https://game.example".to_string(),
        database_url: "SECRET-REDACTED".to_string(),
        twilio_phone_number: "+15550000".to_string(),
        twilio_app_sid: "AP1".to_string(),
        twilio_account_sid: "AC1".to_string(),
        twilio_api_key: "SECRET-REDACTED".to_string(),
        twilio_api_secret: "SECRET-REDACTED".to_string(),
        twilio_auth_token: "SECRET-REDACTED".to_string(),
        novita_api_key: "SECRET-REDACTED".to_string(),
        review_token: "review-pass".to_string(),
        twitter_api_key: "SECRET-REDACTED".to_string(),
        twitter_api_secret: "SECRET-REDACTED".to_string(),
        twitter_access_token: "SECRET-REDACTED".to_string(),
        twitter_access_secret: "SECRET-REDACTED".to_string(),
        rpc_url: "https://rpc.example".to_string(),
        spaces_secret_key: "SECRET-REDACTED".to_string(),
        spaces_access_key: "SECRET-REDACTED".to_string(),
        spaces_url: "https://spaces.example".to_string(),
        treasury_private_key: "SECRET-REDACTED".to_string(),
        treasury_public_key: "TREASURY".to_string(),
    }
}

#[test]
fn built_sponsor_is_trimmed_capped_and_inactive() {
    let sponsor = build_sponsor(&sponsor_args(), "PRIV".to_string(), "PUB".to_string());
    assert_eq!(sponsor.name, "Acme Corp");
    assert_eq!(sponsor.user_id, "owner-9");
    assert_eq!(sponsor.background_url, "https://cdn.example/bg.mp4");
    assert_eq!(sponsor.token_mint, "MINT-9");
    assert_eq!(sponsor.challenge_time, 60);
    assert_eq!(sponsor.available_tokens, 500);
    assert_eq!(sponsor.reward_tokens, 50);
    assert!(!sponsor.active);
    assert!(!sponsor.initial_funded);
    assert_eq!(sponsor.start_text, "Lets start the game:  Sing a song");
    assert_eq!(sponsor.challenge_text, "Sing a song");
}

#[test]
fn short_challenge_time_is_kept() {
    let mut args = sponsor_args();
    args.challenge_time = 30;
    let sponsor = build_sponsor(&args, "PRIV".to_string(), "PUB".to_string());
    assert_eq!(sponsor.challenge_time, 30);
}

#[test]
fn launchpad_stores_and_answers_the_sponsor() {
    let mut db = Database::new();
    let data = launchpad(
        &mut db,
        &sponsor_args(),
        "PRIV".to_string(),
        "PUB".to_string(),
        "sig-1".to_string(),
    );
    assert_eq!(db.sponsors.len(), 1);
    assert_eq!(data.signature, "sig-1");
    assert_eq!(data.sponsor.name, "Acme Corp");
    assert_eq!(data.sponsor.public_key, "PUB");
    assert_eq!(db.sponsors[0].id, data.sponsor.id);
}

fn update_request_for(public_key: &str, active: bool) -> UpdateSponsorArgs {
    UpdateSponsorArgs {
        public_key: public_key.to_string(),
        name: "New Name".to_string(),
        active,
        background_url: "https://new/bg".to_string(),
        challenge_time: 20,
        system_instruction: "stricter host".to_string(),
        start_text: "fresh start {name}".to_string(),
        rating_threshold: 8,
        challenge_text: "new challenge".to_string(),
        user_id: "owner-9".to_string(),
        signature: "sig".to_string(),
    }
}

#[test]
fn activation_gate_needs_reward_coverage() {
    let mut db = Database::new();
    let mut args = sponsor_args();
    args.original_tokens = 10;
    args.reward_tokens = 50;
    launchpad(&mut db, &args, "PRIV".to_string(), "PUB".to_string(), "s".to_string());
    let refused = update_sponsor(&mut db, &update_request_for("PUB", true));
    assert!(matches!(refused, Err(ApiError::NotEnoughTokens)));
    let applied = update_sponsor(&mut db, &update_request_for("PUB", false)).unwrap();
    assert_eq!(applied.name, "New Name");
    assert!(!applied.active);
    assert!(matches!(
        update_sponsor(&mut db, &update_request_for("GONE", false)),
        Err(ApiError::SponsorNotFound)
    ));
}

#[test]
fn initial_funding_is_confirmed_once() {
    let mut db = Database::new();
    launchpad(&mut db, &sponsor_args(), "PRIV".to_string(), "PUB".to_string(), "s".to_string());
    let first = activate_sponsor(&mut db, "PUB", "sig-a".to_string()).unwrap();
    assert!(first.sponsor.initial_funded);
    assert!(db.sponsors[0].active);
    assert!(db.sponsors[0].initial_funded);
    let second = activate_sponsor(&mut db, "PUB", "sig-b".to_string());
    assert_eq!(second.map(|d| d.signature), Err(ApiError::AlreadyFunded));
    assert_eq!(
        activate_sponsor(&mut db, "GONE", "x".to_string()).map(|d| d.signature),
        Err(ApiError::SponsorNotFound)
    );
}

#[test]
fn winner_check_reports_the_latest_attempt() {
    let mut db = Database::new();
    let data = launchpad(
        &mut db,
        &sponsor_args(),
        "PRIV".to_string(),
        "PUB".to_string(),
        "s".to_string(),
    );
    let sponsor = db.get_sponsor_by_id(data.sponsor.id).unwrap();
    let caller = db.get_or_insert_user_by_phone_number("+15550001", 1);
    db.create_attempt_with_sponsor(&caller, &sponsor, "CA1".to_string(), 100);
    db.create_attempt_with_sponsor(&caller, &sponsor, "CA2".to_string(), 200);
    db.update_attempt_winner("+15550001", true, "CA2");
    db.update_attempt_winner_url("+15550001", "https://claim/k".to_string(), "CA2");
    let response = verify_winner(&db, &WinnerRequest { phone_number: "+15550001".to_string() })
        .unwrap();
    assert_eq!(response.is_winner, Some(true));
    assert_eq!(response.winner_url, Some("https://claim/k".to_string()));
    assert!(verify_winner(&db, &WinnerRequest { phone_number: "+15559999".to_string() })
        .is_none());
}

#[test]
fn listing_keeps_only_recent_attempts_with_video() {
    let mut db = Database::new();
    let data = launchpad(
        &mut db,
        &sponsor_args(),
        "PRIV".to_string(),
        "PUB".to_string(),
        "s".to_string(),
    );
    let sponsor = db.get_sponsor_by_id(data.sponsor.id).unwrap();
    let caller = db.get_or_insert_user_by_phone_number("+15550001", 1);
    let now: i64 = 2_000_000_000;
    db.create_attempt_with_sponsor(&caller, &sponsor, "no-video".to_string(), now - 10);
    db.create_attempt_with_sponsor(&caller, &sponsor, "with-video".to_string(), now - 5);
    db.create_attempt_with_sponsor(&caller, &sponsor, "too-old".to_string(), now
        - 1_300_000_000);
    db.update_attempt_video("+15550001", "https://v/x.mp4".to_string(), "with-video");
    db.update_attempt_video("+15550001", "https://v/old.mp4".to_string(), "too-old");
    let listed = attempt_list(&db, now);
    assert_eq!(listed.len(), 1);
    assert_eq!(listed[0].video_url, Some("https://v/x.mp4".to_string()));
}

#[test]
fn sponsor_listing_projects_public_fields() {
    let mut db = Database::new();
    launchpad(&mut db, &sponsor_args(), "P1".to_string(), "PUB1".to_string(), "s".to_string());
    let mut other = sponsor_args();
    other.user_id = "someone-else".to_string();
    launchpad(&mut db, &other, "P2".to_string(), "PUB2".to_string(), "s".to_string());
    let mine = sponsor_list(&db, "owner-9");
    assert_eq!(mine.len(), 1);
    assert_eq!(mine[0].public_key, "PUB1");
}

#[test]
fn claim_lookup_needs_a_known_key() {
    let mut db = Database::new();
    let data = launchpad(
        &mut db,
        &sponsor_args(),
        "PRIV".to_string(),
        "PUB".to_string(),
        "s".to_string(),
    );
    db.create_winner("Alex".to_string(), data.sponsor.id, "claim-1".to_string());
    let page = verify(&db, "claim-1").unwrap();
    assert_eq!(page.winner.name, "Alex");
    assert_eq!(page.sponsor.public_key, "PUB");
    assert_eq!(verify(&db, "unknown").map(|p| p.winner.id), Err(ApiError::Unauthorized));
}

#[test]
fn orphaned_winner_cannot_be_served() {
    let mut db = Database::new();
    db.create_winner("Alex".to_string(), 42, "claim-2".to_string());
    assert_eq!(verify(&db, "claim-2").map(|p| p.winner.id), Err(ApiError::SponsorNotFound));
}

#[test]
fn review_token_check_is_exact() {
    let secrets = plain_secrets();
    assert!(check_token("review-pass", &secrets));
    assert!(!check_token("review-Pass", &secrets));
    assert!(!check_token("", &secrets));
}

#[test]
fn trimming_removes_only_outer_blanks() {
    assert_eq!(trim_blanks("  a b  "), "a b");
    assert_eq!(trim_blanks("\t\nx\r"), "x");
    assert_eq!(trim_blanks("   "), "");
    assert_eq!(trim_blanks("plain"), "plain");
}

#[test]
fn sponsor_record_eligibility_rule() {
    let mut s = Sponsor {
        id: 1,
        name: "n".to_string(),
        user_id: "u".to_string(),
        active: true,
        background_url: String::new(),
        private_key: "SECRET-REDACTED".to_string(),
        public_key: "p".to_string(),
        token_mint: "m".to_string(),
        original_tokens: 100,
        available_tokens: 100,
        reward_tokens: 100,
        challenge_time: 10,
        system_instruction: String::new(),
        greeting_text: String::new(),
        start_text: String::new(),
        challenge_text: String::new(),
        end_text: String::new(),
        won_text: String::new(),
        lost_text: String::new(),
        rating_threshold: 5,
        initial_funded: true,
    };
    assert!(s.eligible());
    s.available_tokens = 99;
    assert!(!s.eligible());
    s.available_tokens = 100;
    s.active = false;
    assert!(!s.eligible());
}
