//! The persistent data model: sponsors funding challenges, callers and their
//! daily attempt counters, one attempt row per call, and winner rows holding a
//! claim credential. Timestamps are plain numbers: days for the daily counter,
//! milliseconds for row creation order.

use vstd::prelude::*;

verus! {

/// A sponsor funding a challenge and its reward.
///
/// Well-formedness: the token balances never go negative, and a debit of
/// `reward_tokens` only ever succeeds while `available_tokens` covers it.
#[derive(Debug)]
pub struct Sponsor {
    pub id: i32,
    pub name: String,
    pub user_id: String,
    pub active: bool,
    pub background_url: String,
    pub private_key: String,
    pub public_key: String,
    pub token_mint: String,
    pub original_tokens: i64,
    pub available_tokens: i64,
    pub reward_tokens: i64,
    pub challenge_time: i32,
    pub system_instruction: String,
    pub greeting_text: String,
    pub start_text: String,
    pub challenge_text: String,
    pub end_text: String,
    pub won_text: String,
    pub lost_text: String,
    pub rating_threshold: i32,
    pub initial_funded: bool,
}

impl Sponsor {
    /// The balances a sponsor row must keep at all times.
    pub open spec fn wf(self) -> bool {
        0 <= self.available_tokens && 0 <= self.reward_tokens && 0 <= self.original_tokens
    }

    /// Whether this sponsor can be offered to a caller: it is active and its
    /// available balance still covers one reward.
    pub open spec fn spec_eligible(self) -> bool {
        self.active && self.available_tokens >= self.reward_tokens
    }

    /// Whether this sponsor can be offered to a caller.
    pub fn eligible(&self) -> (r: bool)
        ensures
            r == self.spec_eligible(),
    {
        self.active && self.available_tokens >= self.reward_tokens
    }
}

impl Clone for Sponsor {
    fn clone(&self) -> (r: Sponsor)
        ensures
            r == *self,
    {
        Sponsor {
            id: self.id,
            name: self.name.clone(),
            user_id: self.user_id.clone(),
            active: self.active,
            background_url: self.background_url.clone(),
            private_key: self.private_key.clone(),
            public_key: self.public_key.clone(),
            token_mint: self.token_mint.clone(),
            original_tokens: self.original_tokens,
            available_tokens: self.available_tokens,
            reward_tokens: self.reward_tokens,
            challenge_time: self.challenge_time,
            system_instruction: self.system_instruction.clone(),
            greeting_text: self.greeting_text.clone(),
            start_text: self.start_text.clone(),
            challenge_text: self.challenge_text.clone(),
            end_text: self.end_text.clone(),
            won_text: self.won_text.clone(),
            lost_text: self.lost_text.clone(),
            rating_threshold: self.rating_threshold,
            initial_funded: self.initial_funded,
        }
    }
}

/// The amount removed from a sponsor's available balance by one debit.
#[derive(Debug, Clone)]
pub struct WithdrawnTokens {
    pub amount: i64,
}

/// A caller, keyed by phone number, with the daily attempt counter.
/// `last_attempt` is a day number; the counter is only meaningful for the day
/// it was last written.
#[derive(Debug)]
pub struct User {
    pub phone_number: String,
    pub attempts_today: i32,
    pub last_attempt: i64,
    pub banned: bool,
}

impl Clone for User {
    fn clone(&self) -> (r: User)
        ensures
            r == *self,
    {
        User {
            phone_number: self.phone_number.clone(),
            attempts_today: self.attempts_today,
            last_attempt: self.last_attempt,
            banned: self.banned,
        }
    }
}

/// A winner row: the `key` is the claim credential handed to the caller.
#[derive(Debug)]
pub struct Winner {
    pub id: i32,
    pub key: String,
    pub name: String,
    pub sponsor_id: i32,
}

impl Clone for Winner {
    fn clone(&self) -> (r: Winner)
        ensures
            r == *self,
    {
        Winner {
            id: self.id,
            key: self.key.clone(),
            name: self.name.clone(),
            sponsor_id: self.sponsor_id,
        }
    }
}

/// One row per call: the sponsor snapshot at call time and everything later
/// stages write back (judgement, video, winner flag and claim link).
#[derive(Debug)]
pub struct Attempt {
    pub id: i32,
    pub pubkey: Option<String>,
    pub phone_number: String,
    pub created_at: i64,
    pub updated_at: i64,
    pub video_url: Option<String>,
    pub twitter_url: Option<String>,
    pub is_winner: Option<bool>,
    pub sponsor_question: Option<String>,
    pub sponsor_name: Option<String>,
    pub sponsor_token_mint: Option<String>,
    pub sponsor_total_reward: Option<i64>,
    pub sponsor_attempt_reward: Option<i64>,
    pub sponsor_background_url: Option<String>,
    pub sponsor_challenge_time: Option<i32>,
    pub challenge_transcript: Option<String>,
    pub challenge_status: Option<String>,
    pub winner_url: String,
    pub call_sid: String,
}

impl Clone for Attempt {
    fn clone(&self) -> (r: Attempt)
        ensures
            r == *self,
    {
        Attempt {
            id: self.id,
            pubkey: self.pubkey.clone(),
            phone_number: self.phone_number.clone(),
            created_at: self.created_at,
            updated_at: self.updated_at,
            video_url: self.video_url.clone(),
            twitter_url: self.twitter_url.clone(),
            is_winner: self.is_winner,
            sponsor_question: self.sponsor_question.clone(),
            sponsor_name: self.sponsor_name.clone(),
            sponsor_token_mint: self.sponsor_token_mint.clone(),
            sponsor_total_reward: self.sponsor_total_reward,
            sponsor_attempt_reward: self.sponsor_attempt_reward,
            sponsor_background_url: self.sponsor_background_url.clone(),
            sponsor_challenge_time: self.sponsor_challenge_time,
            challenge_transcript: self.challenge_transcript.clone(),
            challenge_status: self.challenge_status.clone(),
            winner_url: self.winner_url.clone(),
            call_sid: self.call_sid.clone(),
        }
    }
}

/// The slice of an attempt row shown to the public listing.
#[derive(Debug, Clone)]
pub struct AttemptReturn {
    pub id: i32,
    pub created_at: i64,
    pub updated_at: i64,
    pub video_url: Option<String>,
    pub twitter_url: Option<String>,
    pub is_winner: Option<bool>,
    pub sponsor_question: Option<String>,
    pub sponsor_name: Option<String>,
    pub sponsor_token_mint: Option<String>,
    pub sponsor_background_url: Option<String>,
    pub sponsor_challenge_time: Option<i32>,
    pub challenge_transcript: Option<String>,
    pub challenge_status: Option<String>,
}

/// What an attempt row projects to in the public listing.
pub open spec fn spec_attempt_return(a: Attempt) -> AttemptReturn {
    AttemptReturn {
        id: a.id,
        created_at: a.created_at,
        updated_at: a.updated_at,
        video_url: a.video_url,
        twitter_url: a.twitter_url,
        is_winner: a.is_winner,
        sponsor_question: a.sponsor_question,
        sponsor_name: a.sponsor_name,
        sponsor_token_mint: a.sponsor_token_mint,
        sponsor_background_url: a.sponsor_background_url,
        sponsor_challenge_time: a.sponsor_challenge_time,
        challenge_transcript: a.challenge_transcript,
        challenge_status: a.challenge_status,
    }
}

impl From<Attempt> for AttemptReturn {
    fn from(attempt: Attempt) -> (r: AttemptReturn) {
        AttemptReturn {
            id: attempt.id,
            created_at: attempt.created_at,
            updated_at: attempt.updated_at,
            video_url: attempt.video_url,
            twitter_url: attempt.twitter_url,
            is_winner: attempt.is_winner,
            sponsor_question: attempt.sponsor_question,
            sponsor_name: attempt.sponsor_name,
            sponsor_token_mint: attempt.sponsor_token_mint,
            sponsor_background_url: attempt.sponsor_background_url,
            sponsor_challenge_time: attempt.sponsor_challenge_time,
            challenge_transcript: attempt.challenge_transcript,
            challenge_status: attempt.challenge_status,
        }
    }
}

impl vstd::std_specs::convert::FromSpecImpl<Attempt> for AttemptReturn {
    open spec fn obeys_from_spec() -> bool {
        true
    }

    open spec fn from_spec(attempt: Attempt) -> AttemptReturn {
        spec_attempt_return(attempt)
    }
}

/// The secrets the surrounding program loads from its environment.
#[derive(Debug, Clone)]
pub struct Secrets {
    pub global_url: String,
    pub database_url: String,
    pub twilio_phone_number: String,
    pub twilio_app_sid: String,
    pub twilio_account_sid: String,
    pub twilio_api_key: String,
    pub twilio_api_secret: String,
    pub twilio_auth_token: String,
    pub novita_api_key: String,
    pub review_token: String,
    pub twitter_api_key: String,
    pub twitter_api_secret: String,
    pub twitter_access_token: String,
    pub twitter_access_secret: String,
    pub rpc_url: String,
    pub spaces_secret_key: String,
    pub spaces_access_key: String,
    pub spaces_url: String,
    pub treasury_private_key: String,
    pub treasury_public_key: String,
}

/// The verdict of the judgment stage on one call.
#[derive(Debug, Clone)]
pub struct JudgeResponse {
    pub won_prize: bool,
    pub rating: u8,
    pub explanation: String,
}

/// A request to create a sponsor.
#[derive(Debug, Clone)]
pub struct SponsorArgs {
    pub name: String,
    pub user_id: String,
    pub background_url: String,
    pub token_mint: String,
    pub original_tokens: i64,
    pub reward_tokens: i64,
    pub challenge_time: i32,
    pub system_instruction: String,
    pub challenge: String,
    pub rating_threshold: i32,
    pub transaction: String,
}

/// A request to update a sponsor's configuration.
#[derive(Debug, Clone)]
pub struct UpdateSponsorArgs {
    pub public_key: String,
    pub name: String,
    pub active: bool,
    pub background_url: String,
    pub challenge_time: i32,
    pub system_instruction: String,
    pub start_text: String,
    pub rating_threshold: i32,
    pub challenge_text: String,
    pub user_id: String,
    pub signature: String,
}

/// A request to activate a sponsor after its initial funding.
#[derive(Debug, Clone)]
pub struct ActivateSponsorArgs {
    pub sponsor_public_key: String,
    pub transaction: String,
}

/// A request for a deposit transaction towards a sponsor's wallet.
#[derive(Debug, Clone)]
pub struct DepositArgs {
    pub sender_public_key: String,
    pub sponsor_public_key: String,
}

/// A request for a payment transaction towards the treasury.
#[derive(Debug, Clone)]
pub struct PaymentArgs {
    pub sender: String,
}

/// A signed request for the sponsors belonging to one user.
#[derive(Debug, Clone)]
pub struct SponsorListArgs {
    pub public_key: String,
    pub signature: String,
}

/// The sponsor fields returned to callers of the management interface; the
/// wallet's private key never leaves the library this way.
#[derive(Debug, Clone)]
pub struct ReturnSponsor {
    pub id: i32,
    pub name: String,
    pub user_id: String,
    pub active: bool,
    pub background_url: String,
    pub public_key: String,
    pub token_mint: String,
    pub original_tokens: i64,
    pub available_tokens: i64,
    pub reward_tokens: i64,
    pub challenge_text: String,
    pub challenge_time: i32,
    pub start_text: String,
    pub system_instruction: String,
    pub won_text: String,
    pub lost_text: String,
    pub greeting_text: String,
    pub end_text: String,
    pub rating_threshold: i32,
    pub initial_funded: bool,
}

/// What a sponsor row projects to at the management interface.
pub open spec fn spec_return_sponsor(s: Sponsor) -> ReturnSponsor {
    ReturnSponsor {
        id: s.id,
        name: s.name,
        user_id: s.user_id,
        active: s.active,
        background_url: s.background_url,
        public_key: s.public_key,
        token_mint: s.token_mint,
        original_tokens: s.original_tokens,
        available_tokens: s.available_tokens,
        reward_tokens: s.reward_tokens,
        challenge_text: s.challenge_text,
        challenge_time: s.challenge_time,
        start_text: s.start_text,
        system_instruction: s.system_instruction,
        won_text: s.won_text,
        lost_text: s.lost_text,
        greeting_text: s.greeting_text,
        end_text: s.end_text,
        rating_threshold: s.rating_threshold,
        initial_funded: s.initial_funded,
    }
}

impl From<Sponsor> for ReturnSponsor {
    fn from(s: Sponsor) -> (r: ReturnSponsor) {
        ReturnSponsor {
            id: s.id,
            name: s.name,
            user_id: s.user_id,
            active: s.active,
            background_url: s.background_url,
            public_key: s.public_key,
            token_mint: s.token_mint,
            original_tokens: s.original_tokens,
            available_tokens: s.available_tokens,
            reward_tokens: s.reward_tokens,
            challenge_text: s.challenge_text,
            challenge_time: s.challenge_time,
            start_text: s.start_text,
            system_instruction: s.system_instruction,
            won_text: s.won_text,
            lost_text: s.lost_text,
            greeting_text: s.greeting_text,
            end_text: s.end_text,
            rating_threshold: s.rating_threshold,
            initial_funded: s.initial_funded,
        }
    }
}

impl vstd::std_specs::convert::FromSpecImpl<Sponsor> for ReturnSponsor {
    open spec fn obeys_from_spec() -> bool {
        true
    }

    open spec fn from_spec(s: Sponsor) -> ReturnSponsor {
        spec_return_sponsor(s)
    }
}

/// A management response carrying the stored sponsor and the submitted
/// transaction's signature.
#[derive(Debug, Clone)]
pub struct ResponseData {
    pub sponsor: ReturnSponsor,
    pub signature: String,
}

/// A request asking whether a phone number's latest attempt won.
#[derive(Debug, Clone)]
pub struct WinnerRequest {
    pub phone_number: String,
}

/// The answer to a [`WinnerRequest`].
#[derive(Debug, Clone)]
pub struct WinnerResponse {
    pub is_winner: Option<bool>,
    pub winner_url: Option<String>,
}

/// The claim credential presented at the claim page.
#[derive(Debug, Clone)]
pub struct ClaimQuery {
    pub key: String,
}

/// The data rendered on a winner's claim page.
#[derive(Debug, Clone)]
pub struct ClaimPage {
    pub winner: Winner,
    pub sponsor: Sponsor,
}

/// A rendered video awaiting review.
#[derive(Debug, Clone)]
pub struct Draft {
    pub call_sid: String,
    pub comment: String,
}

/// All drafts awaiting review.
#[derive(Debug, Clone)]
pub struct DraftTemplate {
    pub drafts: Vec<Draft>,
}

} // verus!
