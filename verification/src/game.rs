//! The call state machine: a call starts, asks for the caller's name, runs
//! the timed challenge conversation, ends, is judged, and settles. Each stage
//! is a verified decision on the session store and the persistent records;
//! the surrounding program only carries events in and actions out.

use crate::cache::{CachedCall, ChatMessage, SessionStore, Timespan};
use crate::database::{Database, spec_debit, spec_debit_allowed};
use crate::records::{Attempt, JudgeResponse, Sponsor, User};
use crate::text::{dec_int, i64_to_string, replace_all, spec_replace};
use crate::twiml::{
    Action, Gather, GatherInput, Method, Prompt, Redirect, Reject, Say, SpeechTimeout, Twiml,
    Voice, spec_xml,
};
use vstd::prelude::*;

verus! {

/// The fixed configuration of the game: daily limits, the host's voice, the
/// prompt texts and the address prefixes for rendered videos and claim links.
#[derive(Debug, Clone)]
pub struct GameConfig {
    pub daily_response_limit: i32,
    pub daily_attempt_limit: i32,
    pub voice: String,
    pub language: String,
    pub speech_model: String,
    pub gather_timeout_seconds: u32,
    pub out_of_attempts_text: String,
    pub name_not_found_text: String,
    pub video_base_url: String,
    pub claim_base_url: String,
}

/// How a freshly started call is answered.
#[derive(Debug, Clone)]
pub enum StartOutcome {
    /// The caller is turned away without a word: banned, or past the daily
    /// response limit.
    Rejected,
    /// The caller hears that the daily attempt limit is reached; no game
    /// starts.
    OutOfAttempts,
    /// The game starts for this sponsor.
    Started(Sponsor),
}

/// A dependency the flow cannot go on without.
#[derive(Debug, Clone, Copy, PartialEq, Eq, Structural)]
pub enum GameError {
    /// No active sponsor can cover a reward right now.
    NoEligibleSponsor,
    /// The session for a live call is gone: a contract violation in the
    /// webhook sequence.
    MissingSession,
}

/// The markup of one spoken text in the configured voice.
pub open spec fn spec_say(config: GameConfig, txt: Seq<char>) -> Seq<char> {
    spec_xml(
        "Say"@,
        seq![("voice"@, config.voice@), ("language"@, config.language@)],
        txt,
    )
}

/// The markup of a redirect to a stage endpoint.
pub open spec fn spec_redirect(url: Seq<char>) -> Seq<char> {
    spec_xml("Redirect"@, seq![("method"@, "POST"@)], url)
}

/// The counter value the start stage leaves in the caller's row: counting
/// this call, reset to one when the last attempt was on another day.
pub open spec fn spec_counted_attempts(db: Database, phone: Seq<char>, today: i64) -> int {
    if db.has_user(phone) {
        if db.user_by_phone(phone).last_attempt == today {
            db.user_by_phone(phone).attempts_today + 1
        } else {
            1
        }
    } else {
        1
    }
}

/// Whether the store knows this caller as banned.
pub open spec fn spec_banned(db: Database, phone: Seq<char>) -> bool {
    db.has_user(phone) && db.user_by_phone(phone).banned
}

/// Greets the caller and sends the call on to the name stage.
pub fn generate_start_twiml(greeting: &str, config: &GameConfig) -> (r: Twiml)
    ensures
        r.body@ == spec_say(*config, greeting@) + spec_redirect("/redirect-gather/name"@),
{
    let mut twiml = Twiml::new();
    twiml.add(
        &(Say {
            txt: greeting.to_owned(),
            voice: Voice::Custom(config.voice.clone()),
            language: config.language.clone(),
        }),
    );
    twiml.add(&(Redirect { method: Method::Post, url: "/redirect-gather/name".to_owned() }));
    proof {
        assert(Seq::<char>::empty() + spec_say(*config, greeting@) =~= spec_say(
            *config,
            greeting@,
        ));
    }
    twiml
}

/// Turns the call away without a word.
pub fn generate_reject_twiml() -> (r: Twiml)
    ensures
        r.body@ == spec_xml("Reject"@, seq![("reason"@, "rejected"@)], Seq::<char>::empty()),
{
    let mut twiml = Twiml::new();
    twiml.add(&(Reject::default()));
    proof {
        let markup = spec_xml("Reject"@, seq![("reason"@, "rejected"@)], Seq::<char>::empty());
        assert(Seq::<char>::empty() + markup =~= markup);
    }
    twiml
}

/// Tells the caller the daily attempt limit is spent, with the limit spelled
/// out in place of the `$attempts` placeholder.
pub fn generate_out_of_attempts_twiml(config: &GameConfig) -> (r: Twiml)
    ensures
        r.body@ == spec_say(
            *config,
            spec_replace(
                config.out_of_attempts_text@,
                "$attempts"@,
                dec_int(config.daily_attempt_limit as int),
            ),
        ),
{
    let limit_text = i64_to_string(config.daily_attempt_limit as i64);
    let spoken = replace_all(
        config.out_of_attempts_text.as_str(),
        "$attempts",
        limit_text.as_str(),
    );
    let mut twiml = Twiml::new();
    twiml.add(
        &(Say {
            txt: spoken,
            voice: Voice::Custom(config.voice.clone()),
            language: config.language.clone(),
        }),
    );
    proof {
        assert(Seq::<char>::empty() + twiml.body@ =~= twiml.body@);
    }
    twiml
}

/// Collects the caller's next utterance and posts it to the given stage
/// endpoint.
pub fn generate_gather_twiml(action: String, config: &GameConfig) -> (r: Twiml)
    ensures
        r.body@ == (Gather {
            action: Some(action),
            input: Some(GatherInput::Speech),
            method: Method::Post,
            timeout_seconds: config.gather_timeout_seconds,
            finish_on_key: '*',
            num_digits: None,
            prompt: Prompt::Nothing,
            speech_timeout: Some(SpeechTimeout::Auto),
            speech_model: Some(config.speech_model),
        }).spec_twiml(),
{
    let mut gather = Gather::default();
    gather.timeout_seconds = config.gather_timeout_seconds;
    gather.action = Some(action);
    gather.input = Some(GatherInput::Speech);
    gather.speech_timeout = Some(SpeechTimeout::Auto);
    gather.speech_model = Some(config.speech_model.clone());
    let mut twiml = Twiml::new();
    twiml.add(&gather);
    proof {
        assert(Seq::<char>::empty() + gather.spec_twiml() =~= gather.spec_twiml());
    }
    twiml
}

/// The start stage: counts the call against the caller's daily allowance,
/// turns away banned or over-limit callers, and otherwise picks an eligible
/// sponsor, records the attempt, and opens the session with the instruction
/// and greeting entries.
///
/// A banned caller is turned away before anything but the counter is touched:
/// no attempt row appears and no session opens, so the call can never reach
/// the name stage.
pub fn start_call(
    db: &mut Database,
    store: &mut SessionStore,
    config: &GameConfig,
    phone_number: &str,
    call_sid: String,
    today: i64,
    now: u64,
    sponsor_pick: usize,
) -> (r: Result<StartOutcome, GameError>)
    requires
        old(db).wf(),
        old(store).wf(),
        old(db).has_user(phone_number@) ==> old(db).user_by_phone(
            phone_number@,
        ).attempts_today < i32::MAX,
        old(db).next_attempt_id < i32::MAX,
        now <= i64::MAX as u64,
    ensures
        final(db).wf(),
        final(store).wf(),
        final(db).sponsors == old(db).sponsors,
        final(db).winners == old(db).winners,
        final(db).has_user(phone_number@),
        spec_banned(*old(db), phone_number@) ==> {
            &&& r == Ok::<StartOutcome, GameError>(StartOutcome::Rejected)
            &&& final(db).attempts == old(db).attempts
            &&& final(store)@ == old(store)@
        },
        !spec_banned(*old(db), phone_number@) ==> {
            let counted = spec_counted_attempts(*old(db), phone_number@, today);
            &&& final(db).user_by_phone(phone_number@).attempts_today == counted
            &&& final(db).user_by_phone(phone_number@).last_attempt == today
            &&& !final(db).user_by_phone(phone_number@).banned
            &&& counted > config.daily_response_limit ==> r == Ok::<StartOutcome, GameError>(
                StartOutcome::Rejected,
            ) && final(db).attempts == old(db).attempts && final(store)@ == old(store)@
            &&& counted <= config.daily_response_limit && counted > config.daily_attempt_limit
                ==> r == Ok::<StartOutcome, GameError>(StartOutcome::OutOfAttempts) && final(db).attempts
                == old(db).attempts && final(store)@ == old(store)@
            &&& counted <= config.daily_response_limit && counted <= config.daily_attempt_limit
                ==> match r {
                Ok(outcome) => outcome matches StartOutcome::Started(sponsor) && {
                    &&& sponsor.spec_eligible()
                    &&& old(db).sponsors@.contains(sponsor)
                    &&& final(db).attempts@ == old(db).attempts@.push(
                        final(db).attempts@.last(),
                    )
                    &&& final(db).attempts@.last().phone_number@ == phone_number@
                    &&& final(db).attempts@.last().call_sid == call_sid
                    &&& final(db).attempts@.last().created_at == now as i64
                    &&& final(db).attempts@.last().sponsor_question == Some(
                        sponsor.challenge_text,
                    )
                    &&& final(db).attempts@.last().sponsor_attempt_reward == Some(
                        sponsor.reward_tokens,
                    )
                    &&& final(db).attempts@.last().is_winner is None
                    &&& ({
                        let session = final(store)@[call_sid@];
                        &&& final(store)@ == old(store)@.insert(call_sid@, session)
                        &&& session.wf()
                        &&& session.sponsor == sponsor
                        &&& session.name@ == Seq::<char>::empty()
                        &&& session.start == now
                        &&& session.messages@ == seq![
                            ChatMessage::System(sponsor.system_instruction),
                            ChatMessage::Assistant(sponsor.greeting_text),
                        ]
                        &&& session.timestamps@ == seq![
                            Timespan { start: now, end: now },
                            Timespan { start: now, end: now },
                        ]
                    })
                },
                Err(e) => e == GameError::NoEligibleSponsor && (forall|i: int|
                    0 <= i < old(db).sponsors@.len() ==> !(
                    #[trigger] old(db).sponsors@[i]).spec_eligible()) && final(db).attempts == old(db).attempts
                    && final(store)@ == old(store)@,
            }
        },
{
    let mut user = db.get_or_insert_user_by_phone_number(phone_number, today);
    proof {
        assert(db.has_user(phone_number@));
        assert(user.banned == spec_banned(*old(db), phone_number@));
    }
    if user.banned {
        return Ok(StartOutcome::Rejected);
    }
    if user.last_attempt != today {
        user.attempts_today = 1;
    }
    let ghost counted_db = *db;
    db.update_user(&user, today);
    proof {
        let w = counted_db.user_slot(phone_number@);
        assert(counted_db.users@[w].phone_number@ == phone_number@);
        assert(db.users@ == counted_db.users@.update(
            w,
            User {
                phone_number: counted_db.user_by_phone(phone_number@).phone_number,
                attempts_today: user.attempts_today,
                last_attempt: today,
                banned: user.banned,
            },
        ));
        assert(db.users@[w].phone_number@ == phone_number@);
        assert(db.has_user(phone_number@));
        let w2 = db.user_slot(phone_number@);
        assert(db.users@[w2].phone_number@ == phone_number@);
        assert(w2 == w);
        assert(db.user_by_phone(phone_number@).attempts_today == user.attempts_today);
        assert(db.user_by_phone(phone_number@).last_attempt == today);
        assert(db.user_by_phone(phone_number@).banned == user.banned);
        assert(user.attempts_today == spec_counted_attempts(*old(db), phone_number@, today));
    }
    if user.attempts_today > config.daily_response_limit {
        return Ok(StartOutcome::Rejected);
    }
    if user.attempts_today > config.daily_attempt_limit {
        return Ok(StartOutcome::OutOfAttempts);
    }
    let sponsor = match db.get_random_sponsor(sponsor_pick) {
        Some(s) => s,
        None => {
            proof {
                assert forall|k: int| 0 <= k < db.sponsors@.len() implies !(
                #[trigger] db.sponsors@[k]).spec_eligible() by {
                    if db.sponsors@[k].spec_eligible() {
                        db.sponsors@.lemma_filter_contains(|s: Sponsor| s.spec_eligible(), k);
                    }
                }
            }
            return Err(GameError::NoEligibleSponsor);
        },
    };
    proof {
        let qualifying = db.sponsors@.filter(|s: Sponsor| s.spec_eligible());
        let slot = (sponsor_pick as int) % (qualifying.len() as int);
        db.sponsors@.lemma_filter_pred(|s: Sponsor| s.spec_eligible(), slot);
        crate::database::lemma_filter_element_is_member(
            db.sponsors@,
            |s: Sponsor| s.spec_eligible(),
            slot,
        );
    }
    db.create_attempt_with_sponsor(&user, &sponsor, call_sid.clone(), now as i64);
    let mut session = CachedCall::new(sponsor.clone(), now);
    session.add_system_message(ChatMessage::System(sponsor.system_instruction.clone()), now);
    session.add_system_message(ChatMessage::Assistant(sponsor.greeting_text.clone()), now);
    proof {
        assert(session.messages@ =~= seq![
            ChatMessage::System(sponsor.system_instruction),
            ChatMessage::Assistant(sponsor.greeting_text),
        ]);
        assert(session.timestamps@ =~= seq![
            Timespan { start: now, end: now },
            Timespan { start: now, end: now },
        ]);
    }
    store.insert(call_sid, session);
    Ok(StartOutcome::Started(sponsor))
}

/// The literal reply `null` from the name-extraction capability means no
/// name was found; anything else is the extracted name.
pub fn normalize_extracted_name(name: String) -> (r: Option<String>)
    ensures
        name@ == "null"@ ==> r is None,
        name@ != "null"@ ==> (r matches Some(n) && n == name),
{
    if crate::text::str_eq(name.as_str(), "null") {
        None
    } else {
        Some(name)
    }
}

/// The name stage's answer: with a name, the sponsor's start text with the
/// name and challenge duration filled in, and the call moves on to the
/// challenge; without one, the retry prompt, and the name stage repeats.
pub fn generate_name_response(name: &Option<String>, sponsor: &Sponsor, config: &GameConfig) -> (r:
    (Twiml, String))
    ensures
        match name {
            Some(n) => {
                &&& r.1@ == spec_replace(
                    spec_replace(sponsor.start_text@, "{name}"@, n@),
                    "{duration}"@,
                    dec_int(sponsor.challenge_time as int),
                )
                &&& r.0.body@ == spec_say(*config, r.1@) + spec_redirect("/challenge/start"@)
            },
            None => {
                &&& r.1 == config.name_not_found_text
                &&& r.0.body@ == spec_say(*config, r.1@) + spec_redirect("/redirect-gather/name"@)
            },
        },
{
    let response: String = match name {
        Some(n) => {
            let with_name = replace_all(sponsor.start_text.as_str(), "{name}", n.as_str());
            let duration = i64_to_string(sponsor.challenge_time as i64);
            replace_all(with_name.as_str(), "{duration}", duration.as_str())
        },
        None => config.name_not_found_text.clone(),
    };
    let next_url: &str = match name {
        Some(_) => "/challenge/start",
        None => "/redirect-gather/name",
    };
    let mut twiml = Twiml::new();
    twiml.add(
        &(Say {
            txt: response.clone(),
            voice: Voice::Custom(config.voice.clone()),
            language: config.language.clone(),
        }),
    );
    twiml.add(&(Redirect { method: Method::Post, url: next_url.to_owned() }));
    proof {
        assert(Seq::<char>::empty() + spec_say(*config, response@) =~= spec_say(
            *config,
            response@,
        ));
    }
    (twiml, response)
}

/// The name stage's bookkeeping after a turn: stores the extracted name (if
/// one was found), then appends the caller's utterance and the host's reply
/// to the transcript.
pub fn update_conversation_cache(
    store: &mut SessionStore,
    call_sid: &str,
    user_message: String,
    name: Option<String>,
    assistant_message: String,
    now: u64,
) -> (r: Result<(), GameError>)
    requires
        old(store).wf(),
        old(store)@.contains_key(call_sid@) ==> old(store)@[call_sid@].wf() && old(
            store,
        )@[call_sid@].latest() <= now,
    ensures
        final(store).wf(),
        old(store)@.contains_key(call_sid@) ==> {
            let before = old(store)@[call_sid@];
            let after = final(store)@[call_sid@];
            &&& r is Ok
            &&& final(store)@ == old(store)@.insert(call_sid@, after)
            &&& after.wf()
            &&& after.name == (if name is Some {
                name->0
            } else {
                before.name
            })
            &&& after.messages@ == before.messages@.push(ChatMessage::User(user_message)).push(
                ChatMessage::Assistant(assistant_message),
            )
            &&& after.timestamps@ == crate::cache::spec_add_system(
                crate::cache::spec_add_user(before.timestamps@, now),
                now,
            )
            &&& after.sponsor == before.sponsor
            &&& after.start == before.start
        },
        !old(store)@.contains_key(call_sid@) ==> r == Err::<(), GameError>(
            GameError::MissingSession,
        ) && final(store)@ == old(store)@,
{
    match store.remove(call_sid) {
        Some(mut session) => {
            match name {
                Some(n) => {
                    session.name = n;
                },
                None => {
                },
            }
            session.add_user_message(ChatMessage::User(user_message), now);
            session.add_system_message(ChatMessage::Assistant(assistant_message), now);
            store.insert(call_sid.to_owned(), session);
            proof {
                assert(final(store)@ =~= old(store)@.insert(
                    call_sid@,
                    final(store)@[call_sid@],
                ));
            }
            Ok(())
        },
        None => {
            proof {
                assert(final(store)@ =~= old(store)@);
            }
            Err(GameError::MissingSession)
        },
    }
}

/// Closes the most recent transcript entry: the provider has just signalled
/// that the host finished speaking, and the next entry must start here.
pub fn close_last_message(store: &mut SessionStore, call_sid: &str, now: u64) -> (r: Result<
    (),
    GameError,
>)
    requires
        old(store).wf(),
        old(store)@.contains_key(call_sid@) ==> old(store)@[call_sid@].wf() && old(
            store,
        )@[call_sid@].latest() <= now,
    ensures
        final(store).wf(),
        old(store)@.contains_key(call_sid@) ==> {
            let before = old(store)@[call_sid@];
            let after = final(store)@[call_sid@];
            &&& r is Ok
            &&& final(store)@ == old(store)@.insert(call_sid@, after)
            &&& after.wf()
            &&& after.messages == before.messages
            &&& after.timestamps@ == crate::cache::spec_close_last(before.timestamps@, now)
            &&& after.name == before.name
            &&& after.sponsor == before.sponsor
            &&& after.start == before.start
        },
        !old(store)@.contains_key(call_sid@) ==> r == Err::<(), GameError>(
            GameError::MissingSession,
        ) && final(store)@ == old(store)@,
{
    match store.remove(call_sid) {
        Some(mut session) => {
            session.end_last_message(now);
            store.insert(call_sid.to_owned(), session);
            proof {
                assert(final(store)@ =~= old(store)@.insert(
                    call_sid@,
                    final(store)@[call_sid@],
                ));
            }
            Ok(())
        },
        None => {
            proof {
                assert(final(store)@ =~= old(store)@);
            }
            Err(GameError::MissingSession)
        },
    }
}

/// The challenge stage's entry: closes the greeting's transcript entry and
/// reports the sponsor's challenge duration, so the surrounding program can
/// arm the deadline timer that will force the call to the end stage. The
/// timer is fire-and-forget: a late redirect against a finished call is a
/// harmless no-op on the provider's side.
pub fn begin_challenge(store: &mut SessionStore, call_sid: &str, now: u64) -> (r: Result<
    i32,
    GameError,
>)
    requires
        old(store).wf(),
        old(store)@.contains_key(call_sid@) ==> old(store)@[call_sid@].wf() && old(
            store,
        )@[call_sid@].latest() <= now,
    ensures
        final(store).wf(),
        old(store)@.contains_key(call_sid@) ==> {
            let before = old(store)@[call_sid@];
            let after = final(store)@[call_sid@];
            &&& r == Ok::<i32, GameError>(before.sponsor.challenge_time)
            &&& final(store)@ == old(store)@.insert(call_sid@, after)
            &&& after.wf()
            &&& after.messages == before.messages
            &&& after.timestamps@ == crate::cache::spec_close_last(before.timestamps@, now)
            &&& after.name == before.name
            &&& after.sponsor == before.sponsor
            &&& after.start == before.start
        },
        !old(store)@.contains_key(call_sid@) ==> r == Err::<i32, GameError>(
            GameError::MissingSession,
        ) && final(store)@ == old(store)@,
{
    match store.remove(call_sid) {
        Some(mut session) => {
            let challenge_time = session.sponsor.challenge_time;
            session.end_last_message(now);
            store.insert(call_sid.to_owned(), session);
            proof {
                assert(final(store)@ =~= old(store)@.insert(
                    call_sid@,
                    final(store)@[call_sid@],
                ));
            }
            Ok(challenge_time)
        },
        None => {
            proof {
                assert(final(store)@ =~= old(store)@);
            }
            Err(GameError::MissingSession)
        },
    }
}

/// One challenge turn: appends the caller's utterance and the host's reply
/// (already produced by the conversational capability, outside any lock on
/// the store) to the call's transcript.
pub fn challenge_respond(
    store: &mut SessionStore,
    call_sid: &str,
    speech_result: String,
    completion: String,
    now: u64,
) -> (r: Result<(), GameError>)
    requires
        old(store).wf(),
        old(store)@.contains_key(call_sid@) ==> old(store)@[call_sid@].wf() && old(
            store,
        )@[call_sid@].latest() <= now,
    ensures
        final(store).wf(),
        old(store)@.contains_key(call_sid@) ==> {
            let before = old(store)@[call_sid@];
            let after = final(store)@[call_sid@];
            &&& r is Ok
            &&& final(store)@ == old(store)@.insert(call_sid@, after)
            &&& after.wf()
            &&& after.messages@ == before.messages@.push(ChatMessage::User(speech_result)).push(
                ChatMessage::Assistant(completion),
            )
            &&& after.timestamps@ == crate::cache::spec_add_system(
                crate::cache::spec_add_user(before.timestamps@, now),
                now,
            )
            &&& after.name == before.name
            &&& after.sponsor == before.sponsor
            &&& after.start == before.start
        },
        !old(store)@.contains_key(call_sid@) ==> r == Err::<(), GameError>(
            GameError::MissingSession,
        ) && final(store)@ == old(store)@,
{
    match store.remove(call_sid) {
        Some(mut session) => {
            session.add_user_message(ChatMessage::User(speech_result), now);
            session.add_system_message(ChatMessage::Assistant(completion), now);
            store.insert(call_sid.to_owned(), session);
            proof {
                assert(final(store)@ =~= old(store)@.insert(
                    call_sid@,
                    final(store)@[call_sid@],
                ));
            }
            Ok(())
        },
        None => {
            proof {
                assert(final(store)@ =~= old(store)@);
            }
            Err(GameError::MissingSession)
        },
    }
}

/// The end stage: appends the sponsor's end text as the final host entry and
/// answers with it spoken, followed by the hand-off to the judgment stage.
pub fn end_call(store: &mut SessionStore, call_sid: &str, config: &GameConfig, now: u64) -> (r:
    Result<Twiml, GameError>)
    requires
        old(store).wf(),
        old(store)@.contains_key(call_sid@) ==> old(store)@[call_sid@].wf() && old(
            store,
        )@[call_sid@].latest() <= now,
    ensures
        final(store).wf(),
        old(store)@.contains_key(call_sid@) ==> {
            let before = old(store)@[call_sid@];
            let after = final(store)@[call_sid@];
            &&& r matches Ok(twiml) && twiml.body@ == spec_say(
                *config,
                before.sponsor.end_text@,
            ) + spec_redirect("/judge"@)
            &&& final(store)@ == old(store)@.insert(call_sid@, after)
            &&& after.wf()
            &&& after.messages@ == before.messages@.push(
                ChatMessage::Assistant(before.sponsor.end_text),
            )
            &&& after.timestamps@ == crate::cache::spec_add_system(before.timestamps@, now)
            &&& after.name == before.name
            &&& after.sponsor == before.sponsor
            &&& after.start == before.start
        },
        !old(store)@.contains_key(call_sid@) ==> (r matches Err(e) && e
            == GameError::MissingSession) && final(store)@ == old(store)@,
{
    match store.remove(call_sid) {
        Some(mut session) => {
            let end_text = session.sponsor.end_text.clone();
            session.add_system_message(ChatMessage::Assistant(end_text.clone()), now);
            store.insert(call_sid.to_owned(), session);
            let mut twiml = Twiml::new();
            twiml.add(
                &(Say {
                    txt: end_text,
                    voice: Voice::Custom(config.voice.clone()),
                    language: config.language.clone(),
                }),
            );
            twiml.add(&(Redirect { method: Method::Post, url: "/judge".to_owned() }));
            proof {
                assert(final(store)@ =~= old(store)@.insert(
                    call_sid@,
                    final(store)@[call_sid@],
                ));
                let markup = spec_say(*config, old(store)@[call_sid@].sponsor.end_text@);
                assert(Seq::<char>::empty() + markup =~= markup);
            }
            Ok(twiml)
        },
        None => {
            proof {
                assert(final(store)@ =~= old(store)@);
            }
            Err(GameError::MissingSession)
        },
    }
}

/// The judgment stage's entry: takes the session out of the store — the
/// single linearization point that guarantees at most one judgment pass per
/// call — and closes its last transcript entry. A second attempt for the
/// same call finds nothing.
pub fn take_session_for_judging(store: &mut SessionStore, call_sid: &str, now: u64) -> (r: Option<
    CachedCall,
>)
    requires
        old(store).wf(),
        old(store)@.contains_key(call_sid@) ==> old(store)@[call_sid@].wf() && old(
            store,
        )@[call_sid@].latest() <= now,
    ensures
        final(store).wf(),
        final(store)@ == old(store)@.remove(call_sid@),
        old(store)@.contains_key(call_sid@) ==> {
            let before = old(store)@[call_sid@];
            &&& r matches Some(session) && {
                &&& session.wf()
                &&& session.messages == before.messages
                &&& session.timestamps@ == crate::cache::spec_close_last(before.timestamps@, now)
                &&& session.name == before.name
                &&& session.sponsor == before.sponsor
                &&& session.start == before.start
            }
        },
        !old(store)@.contains_key(call_sid@) ==> r is None,
{
    match store.remove(call_sid) {
        Some(mut session) => {
            session.end_last_message(now);
            Some(session)
        },
        None => None,
    }
}

/// Whether the judge's rating reaches the sponsor's threshold; downstream
/// rendering picks the richer background for calls at or above it.
pub fn rating_meets_threshold(rating: u8, threshold: i32) -> (r: bool)
    requires
        0 <= threshold <= 255,
    ensures
        r == (rating as int >= threshold as int),
{
    rating as i32 >= threshold
}

/// The on-chain transfer the settlement asks the ledger rail to perform:
/// exactly the snapshot's reward amount, from the sponsor's wallet to the
/// freshly generated claim identity.
#[derive(Debug, Clone)]
pub struct TokenTransfer {
    pub sender_private_key: String,
    pub receiver_public_key: String,
    pub token_mint: String,
    pub amount: u64,
}

/// Everything the settlement decided: the outcome written to the attempt
/// row, the notification text, and the transfer to perform on a win.
#[derive(Debug, Clone)]
pub struct Settlement {
    pub is_winner: bool,
    pub sms_body: String,
    pub transfer: Option<TokenTransfer>,
    pub claim_link: Option<String>,
    pub video_url: String,
}

/// What the settlement leaves of one attempt row: the judge's explanation on
/// every row of this call, and the video address, outcome and claim link on
/// the caller's own row.
pub open spec fn spec_settled_row(
    a: Attempt,
    phone: Seq<char>,
    sid: Seq<char>,
    explanation: String,
    video_url: String,
    is_winner: bool,
    link: Option<String>,
) -> Attempt {
    let judged = if a.call_sid@ == sid {
        Attempt { challenge_status: Some(explanation), ..a }
    } else {
        a
    };
    if a.phone_number@ == phone && a.call_sid@ == sid {
        let written = Attempt { video_url: Some(video_url), is_winner: Some(is_winner), ..judged };
        match link {
            Some(l) => Attempt { winner_url: l, ..written },
            None => written,
        }
    } else {
        judged
    }
}

/// The settlement pipeline, entered with the judge's verdict in hand.
///
/// The explanation and the video address are written to the attempt row
/// first. A win is then only paid while the atomic debit finds the sponsor's
/// balance still covering one reward: in that case a winner row is stored
/// under the fresh claim key, the on-chain transfer of the snapshot's reward
/// amount is requested, and the won-notification carries the claim link.
/// When the debit finds the balance short — or the judge said lost — the
/// attempt ends as a loss and the lost-notification is sent, whatever the
/// judge decided: token availability gates the payout.
///
/// The debit and the transfer are not one transaction: a transfer that fails
/// after the debit stays unreconciled, exactly as the surrounding program
/// treats it (a logged, fatal condition).
pub fn judge_and_settle(
    db: &mut Database,
    session: &CachedCall,
    judged: &JudgeResponse,
    caller_phone_number: &str,
    call_sid: &str,
    winner_key: String,
    receiver_private_key: String,
    receiver_public_key: String,
    config: &GameConfig,
) -> (r: Settlement)
    requires
        old(db).wf(),
        session.sponsor.wf(),
        old(db).next_winner_id < i32::MAX,
    ensures
        final(db).wf(),
        final(db).users == old(db).users,
        r.video_url@ == config.video_base_url@ + call_sid@ + ".mp4"@,
        final(db).attempts@.len() == old(db).attempts@.len(),
        forall|k: int|
            0 <= k < old(db).attempts@.len() ==> final(db).attempts@[k] == spec_settled_row(
                old(db).attempts@[k],
                caller_phone_number@,
                call_sid@,
                judged.explanation,
                r.video_url,
                r.is_winner,
                r.claim_link,
            ),
        ({
            let sponsor_id = session.sponsor.id;
            let paid = judged.won_prize && old(db).has_sponsor(sponsor_id) && spec_debit_allowed(
                old(db).sponsor_by_id(sponsor_id),
            );
            &&& paid ==> {
                &&& r.is_winner
                &&& final(db).sponsors@ == old(db).sponsors@.update(
                    old(db).sponsor_slot(sponsor_id),
                    spec_debit(old(db).sponsor_by_id(sponsor_id)),
                )
                &&& final(db).winners@ == old(db).winners@.push(final(db).winners@.last())
                &&& final(db).winners@.last().name == session.name
                &&& final(db).winners@.last().key == winner_key
                &&& final(db).winners@.last().sponsor_id == sponsor_id
                &&& r.transfer matches Some(t) && t == (TokenTransfer {
                    sender_private_key: session.sponsor.private_key,
                    receiver_public_key: receiver_public_key,
                    token_mint: session.sponsor.token_mint,
                    amount: session.sponsor.reward_tokens as u64,
                })
                &&& r.claim_link matches Some(l) && l@ == config.claim_base_url@
                    + receiver_private_key@
                &&& r.sms_body@ == spec_replace(
                    spec_replace(
                        spec_replace(session.sponsor.won_text@, "{name}"@, session.name@),
                        "{link}"@,
                        config.claim_base_url@ + receiver_private_key@,
                    ),
                    "{video_url}"@,
                    r.video_url@,
                )
            }
            &&& !paid ==> {
                &&& !r.is_winner
                &&& final(db).sponsors == old(db).sponsors
                &&& final(db).winners == old(db).winners
                &&& r.transfer is None
                &&& r.claim_link is None
                &&& r.sms_body@ == spec_replace(
                    session.sponsor.lost_text@,
                    "{name}"@,
                    session.name@,
                )
            }
        }),
{
    db.update_attempt_judgement(call_sid, judged.explanation.clone());
    let ghost db_judged = *db;
    let mut video_url = config.video_base_url.clone();
    video_url.append(call_sid);
    video_url.append(".mp4");
    db.update_attempt_video(caller_phone_number, video_url.clone(), call_sid);
    let ghost db_video = *db;
    if judged.won_prize {
        match db.withdraw_tokens(session.sponsor.id) {
            Some(_withdrawn) => {
                let _winner = db.create_winner(
                    session.name.clone(),
                    session.sponsor.id,
                    winner_key,
                );
                db.update_attempt_winner(caller_phone_number, true, call_sid);
                let transfer = TokenTransfer {
                    sender_private_key: session.sponsor.private_key.clone(),
                    receiver_public_key,
                    token_mint: session.sponsor.token_mint.clone(),
                    amount: session.sponsor.reward_tokens as u64,
                };
                let mut link = config.claim_base_url.clone();
                link.append(receiver_private_key.as_str());
                db.update_attempt_winner_url(caller_phone_number, link.clone(), call_sid);
                let with_name = replace_all(
                    session.sponsor.won_text.as_str(),
                    "{name}",
                    session.name.as_str(),
                );
                let with_link = replace_all(with_name.as_str(), "{link}", link.as_str());
                let sms_body = replace_all(
                    with_link.as_str(),
                    "{video_url}",
                    video_url.as_str(),
                );
                let result = Settlement {
                    is_winner: true,
                    sms_body,
                    transfer: Some(transfer),
                    claim_link: Some(link),
                    video_url,
                };
                proof {
                    assert forall|k: int| 0 <= k < old(db).attempts@.len() implies db.attempts@[k]
                        == spec_settled_row(
                        old(db).attempts@[k],
                        caller_phone_number@,
                        call_sid@,
                        judged.explanation,
                        result.video_url,
                        true,
                        result.claim_link,
                    ) by {
                        assert(db_judged.attempts@[k] == (if old(db).attempts@[k].call_sid@
                            == call_sid@ {
                            Attempt {
                                challenge_status: Some(judged.explanation),
                                ..old(db).attempts@[k]
                            }
                        } else {
                            old(db).attempts@[k]
                        }));
                    }
                }
                result
            },
            None => settle_as_lost(
                db,
                session,
                judged,
                caller_phone_number,
                call_sid,
                video_url,
                Ghost(db_judged),
            ),
        }
    } else {
        settle_as_lost(
            db,
            session,
            judged,
            caller_phone_number,
            call_sid,
            video_url,
            Ghost(db_judged),
        )
    }
}

/// The lost branch shared by a lost verdict and a failed debit: the attempt
/// row ends as a loss and the lost-notification text is prepared.
fn settle_as_lost(
    db: &mut Database,
    session: &CachedCall,
    judged: &JudgeResponse,
    caller_phone_number: &str,
    call_sid: &str,
    video_url: String,
    Ghost(db_judged): Ghost<Database>,
) -> (r: Settlement)
    requires
        old(db).wf(),
        db_judged.attempts@.len() == old(db).attempts@.len(),
        forall|k: int|
            0 <= k < old(db).attempts@.len() ==> old(db).attempts@[k] == (
            if db_judged.attempts@[k].phone_number@ == caller_phone_number@
                && db_judged.attempts@[k].call_sid@ == call_sid@ {
                Attempt { video_url: Some(video_url), ..db_judged.attempts@[k] }
            } else {
                db_judged.attempts@[k]
            }),
    ensures
        final(db).wf(),
        final(db).users == old(db).users,
        final(db).sponsors == old(db).sponsors,
        final(db).winners == old(db).winners,
        !r.is_winner,
        r.transfer is None,
        r.claim_link is None,
        r.video_url == video_url,
        r.sms_body@ == spec_replace(session.sponsor.lost_text@, "{name}"@, session.name@),
        final(db).attempts@.len() == db_judged.attempts@.len(),
        forall|k: int|
            0 <= k < db_judged.attempts@.len() ==> final(db).attempts@[k] == (
            if db_judged.attempts@[k].phone_number@ == caller_phone_number@
                && db_judged.attempts@[k].call_sid@ == call_sid@ {
                Attempt {
                    video_url: Some(video_url),
                    is_winner: Some(false),
                    ..db_judged.attempts@[k]
                }
            } else {
                db_judged.attempts@[k]
            }),
{
    db.update_attempt_winner(caller_phone_number, false, call_sid);
    let sms_body = replace_all(
        session.sponsor.lost_text.as_str(),
        "{name}",
        session.name.as_str(),
    );
    Settlement {
        is_winner: false,
        sms_body,
        transfer: None,
        claim_link: None,
        video_url,
    }
}

} // verus!
