//! The management and claim interface around the game: creating and
//! updating sponsors, the public attempt listing, the winner check, and the
//! claim page lookup. The surrounding program authenticates wallet
//! signatures and settles transactions before these decisions run.

use crate::database::Database;
use crate::records::{
    Attempt, AttemptReturn, ClaimPage, ResponseData, ReturnSponsor, Secrets, Sponsor, SponsorArgs,
    UpdateSponsorArgs, WinnerRequest, WinnerResponse, spec_attempt_return, spec_return_sponsor,
};
use crate::text::str_eq;
use vstd::prelude::*;

verus! {

/// Why a management or claim request is refused.
#[derive(Debug, Clone, Copy, PartialEq, Eq, Structural)]
pub enum ApiError {
    /// No sponsor row carries the given wallet key.
    SponsorNotFound,
    /// A sponsor cannot be switched active without tokens to reward from.
    NotEnoughTokens,
    /// The sponsor's initial funding was already confirmed once.
    AlreadyFunded,
    /// The claim key belongs to no winner.
    Unauthorized,
}

/// Whether a character counts as trimmable blank space.
pub open spec fn is_blank(c: char) -> bool {
    c == ' ' || c == '\t' || c == '\n' || c == '\r'
}

/// The text without its leading blanks.
pub open spec fn drop_leading_blanks(s: Seq<char>) -> Seq<char>
    decreases s.len(),
{
    if s.len() > 0 && is_blank(s[0]) {
        drop_leading_blanks(s.skip(1))
    } else {
        s
    }
}

/// The text without its trailing blanks.
pub open spec fn drop_trailing_blanks(s: Seq<char>) -> Seq<char>
    decreases s.len(),
{
    if s.len() > 0 && is_blank(s.last()) {
        drop_trailing_blanks(s.drop_last())
    } else {
        s
    }
}

/// The text without leading and trailing blanks.
pub open spec fn spec_trim(s: Seq<char>) -> Seq<char> {
    drop_trailing_blanks(drop_leading_blanks(s))
}

/// A prefix of blanks ending at a non-blank (or the end) is exactly what
/// `drop_leading_blanks` removes.
proof fn lemma_drop_leading(s: Seq<char>, i: int)
    requires
        0 <= i <= s.len(),
        forall|k: int| 0 <= k < i ==> is_blank(s[k]),
        i < s.len() ==> !is_blank(s[i]),
    ensures
        drop_leading_blanks(s) == s.skip(i),
    decreases i,
{
    if i == 0 {
        assert(s.skip(0) =~= s);
    } else {
        assert(is_blank(s[0]));
        lemma_drop_leading(s.skip(1), i - 1);
        assert(s.skip(1).skip(i - 1) =~= s.skip(i));
    }
}

/// A suffix of blanks starting after a non-blank (or the start) is exactly
/// what `drop_trailing_blanks` removes.
proof fn lemma_drop_trailing(s: Seq<char>, e: int)
    requires
        0 <= e <= s.len(),
        forall|k: int| e <= k < s.len() ==> is_blank(s[k]),
        e > 0 ==> !is_blank(s[e - 1]),
    ensures
        drop_trailing_blanks(s) == s.take(e),
    decreases s.len() - e,
{
    if e == s.len() as int {
        assert(s.take(e) =~= s);
    } else {
        assert(is_blank(s.last()));
        lemma_drop_trailing(s.drop_last(), e);
        assert(s.drop_last().take(e) =~= s.take(e));
    }
}

/// Checks whether one character is trimmable blank space.
fn is_blank_char(c: char) -> (r: bool)
    ensures
        r == is_blank(c),
{
    c == ' ' || c == '\t' || c == '\n' || c == '\r'
}

/// The text without leading and trailing blanks.
pub fn trim_blanks(s: &str) -> (r: String)
    ensures
        r@ == spec_trim(s@),
{
    let n: usize = s.unicode_len();
    let mut start: usize = 0;
    while start < n && is_blank_char(s.get_char(start))
        invariant
            start <= n,
            n == s@.len(),
            forall|k: int| 0 <= k < start ==> is_blank(s@[k]),
        decreases n - start,
    {
        start += 1;
    }
    if start == n {
        proof {
            lemma_drop_leading(s@, n as int);
            assert(s@.skip(n as int) =~= Seq::<char>::empty());
            assert(drop_trailing_blanks(Seq::<char>::empty()) =~= Seq::<char>::empty());
        }
        return String::new();
    }
    let mut end: usize = n;
    while end > start && is_blank_char(s.get_char(end - 1))
        invariant
            start <= end <= n,
            n == s@.len(),
            start < n,
            !is_blank(s@[start as int]),
            forall|k: int| end <= k < n ==> is_blank(s@[k]),
        decreases end,
    {
        end -= 1;
    }
    let out = s.substring_char(start, end).to_owned();
    proof {
        lemma_drop_leading(s@, start as int);
        let mid = s@.skip(start as int);
        lemma_drop_trailing(mid, end - start);
        assert(mid.take(end - start) =~= s@.subrange(start as int, end as int));
    }
    out
}

/// The sponsor row a launchpad request creates: trimmed identity fields, a
/// freshly generated wallet, the full starting balance available, the
/// challenge duration capped at sixty seconds, and the game's fixed texts.
pub fn build_sponsor(new_sponsor: &SponsorArgs, private_key: String, public_key: String) -> (r:
    Sponsor)
    requires
        0 <= new_sponsor.original_tokens,
        0 <= new_sponsor.reward_tokens,
    ensures
        r.wf(),
        r.name@ == spec_trim(new_sponsor.name@),
        r.user_id@ == spec_trim(new_sponsor.user_id@),
        r.background_url@ == spec_trim(new_sponsor.background_url@),
        r.token_mint@ == spec_trim(new_sponsor.token_mint@),
        r.private_key == private_key,
        r.public_key == public_key,
        !r.active,
        !r.initial_funded,
        r.original_tokens == new_sponsor.original_tokens,
        r.available_tokens == new_sponsor.original_tokens,
        r.reward_tokens == new_sponsor.reward_tokens,
        r.challenge_time == (if new_sponsor.challenge_time > 60 {
            60 as i32
        } else {
            new_sponsor.challenge_time
        }),
        r.system_instruction == new_sponsor.system_instruction,
        r.challenge_text == new_sponsor.challenge,
        r.start_text@ == "Lets start the game: "@ + " "@ + new_sponsor.challenge@,
        r.rating_threshold == new_sponsor.rating_threshold,
{
    let mut start_text = String::new();
    start_text.append("Lets start the game: ");
    start_text.append(" ");
    start_text.append(new_sponsor.challenge.as_str());
    Sponsor {
        id: 1,
        name: trim_blanks(new_sponsor.name.as_str()),
        user_id: trim_blanks(new_sponsor.user_id.as_str()),
        active: false,
        background_url: trim_blanks(new_sponsor.background_url.as_str()),
        private_key,
        public_key,
        token_mint: trim_blanks(new_sponsor.token_mint.as_str()),
        original_tokens: new_sponsor.original_tokens,
        available_tokens: new_sponsor.original_tokens,
        reward_tokens: new_sponsor.reward_tokens,
        challenge_time: if new_sponsor.challenge_time > 60 {
            60
        } else {
            new_sponsor.challenge_time
        },
        system_instruction: new_sponsor.system_instruction.clone(),
        greeting_text: "Welcome to Why dot Fun. Please tell me your name to start the game."
            .to_owned(),
        challenge_text: new_sponsor.challenge.clone(),
        start_text,
        end_text:
            "Alright, your time is up! Thank you for participating. You will receive a text message with the results of your attempt. If you are calling from the United States, visit claim.why.fun to check your result. Callers from the US will not receive a text message, please check your result on claim.why.fun. Thank you for playing today!".to_owned(
        ),
        won_text:
            "Congratulations {name}, you won! Claim your prize: {link}. View the video of your attempt here: {video_url} (it will be ready in around 15 minutes)".to_owned(
        ),
        lost_text:
            "Unfortunately, you did not win this time. Better luck next time! Check out https://x.com/whydotfun for tips and tricks to improve your chances.".to_owned(
        ),
        rating_threshold: new_sponsor.rating_threshold,
        initial_funded: false,
    }
}

/// A launchpad request after its funding payment was verified: stores the
/// built sponsor row and answers with the stored row and the payment's
/// signature.
pub fn launchpad(
    db: &mut Database,
    new_sponsor: &SponsorArgs,
    private_key: String,
    public_key: String,
    signature: String,
) -> (r: ResponseData)
    requires
        old(db).wf(),
        old(db).next_sponsor_id < i32::MAX,
        0 <= new_sponsor.original_tokens,
        0 <= new_sponsor.reward_tokens,
    ensures
        final(db).wf(),
        final(db).users == old(db).users,
        final(db).attempts == old(db).attempts,
        final(db).winners == old(db).winners,
        final(db).sponsors@.len() == old(db).sponsors@.len() + 1,
        final(db).sponsors@ == old(db).sponsors@.push(final(db).sponsors@.last()),
        ({
            let stored = final(db).sponsors@.last();
            &&& stored.id == old(db).next_sponsor_id
            &&& stored.name@ == spec_trim(new_sponsor.name@)
            &&& stored.public_key == public_key
            &&& stored.private_key == private_key
            &&& !stored.active
            &&& !stored.initial_funded
            &&& stored.available_tokens == new_sponsor.original_tokens
            &&& stored.reward_tokens == new_sponsor.reward_tokens
            &&& stored.challenge_time == (if new_sponsor.challenge_time > 60 {
                60 as i32
            } else {
                new_sponsor.challenge_time
            })
            &&& r.sponsor == spec_return_sponsor(stored)
            &&& r.signature == signature
        }),
{
    let sponsor = build_sponsor(new_sponsor, private_key, public_key);
    let stored = db.create_sponsor(sponsor);
    ResponseData { sponsor: ReturnSponsor::from(stored), signature }
}

/// An update request after its wallet signature was verified: refused while
/// it would switch a sponsor active whose balance covers no reward, applied
/// to the sponsor's configurable fields otherwise.
pub fn update_sponsor(db: &mut Database, request: &UpdateSponsorArgs) -> (r: Result<
    ReturnSponsor,
    ApiError,
>)
    requires
        old(db).wf(),
    ensures
        final(db).wf(),
        final(db).users == old(db).users,
        final(db).attempts == old(db).attempts,
        final(db).winners == old(db).winners,
        match r {
            Ok(returned) => exists|k: int|
                {
                    &&& 0 <= k < old(db).sponsors@.len()
                    &&& (#[trigger] old(db).sponsors@[k]).public_key@ == request.public_key@
                    &&& forall|x: int|
                        0 <= x < k ==> (#[trigger] old(db).sponsors@[x]).public_key@
                            != request.public_key@
                    &&& !(request.active && (old(db).sponsors@[k].available_tokens < old(
                        db,
                    ).sponsors@[k].reward_tokens || old(db).sponsors@[k].available_tokens <= 0))
                    &&& final(db).sponsors@ == old(db).sponsors@.update(
                        k,
                        crate::database::spec_update_sponsor(old(db).sponsors@[k], *request),
                    )
                    &&& returned == spec_return_sponsor(
                        crate::database::spec_update_sponsor(old(db).sponsors@[k], *request),
                    )
                },
            Err(e) => *final(db) == *old(db) && match e {
                ApiError::SponsorNotFound => forall|k: int|
                    0 <= k < old(db).sponsors@.len() ==> (
                    #[trigger] old(db).sponsors@[k]).public_key@ != request.public_key@,
                ApiError::NotEnoughTokens => request.active,
                _ => false,
            },
        },
{
    let sponsor = match db.get_sponsor_by_public_key(request.public_key.as_str()) {
        Some(s) => s,
        None => {
            return Err(ApiError::SponsorNotFound);
        },
    };
    if request.active && (sponsor.available_tokens < sponsor.reward_tokens
        || sponsor.available_tokens <= 0) {
        return Err(ApiError::NotEnoughTokens);
    }
    let ghost fetched = sponsor;
    let ghost prior = *db;
    match db.update_sponsor(request) {
        Some(updated) => {
            proof {
                let k1 = choose|k: int|
                    {
                        &&& 0 <= k < prior.sponsors@.len()
                        &&& fetched == (#[trigger] prior.sponsors@[k])
                        &&& forall|x: int|
                            0 <= x < k ==> (#[trigger] prior.sponsors@[x]).public_key@
                                != request.public_key@
                    };
                let k2 = choose|k: int|
                    {
                        &&& 0 <= k < prior.sponsors@.len()
                        &&& (#[trigger] prior.sponsors@[k]).public_key@ == request.public_key@
                        &&& forall|x: int|
                            0 <= x < k ==> (#[trigger] prior.sponsors@[x]).public_key@
                                != request.public_key@
                        &&& updated == crate::database::spec_update_sponsor(
                            prior.sponsors@[k],
                            *request,
                        )
                        &&& db.sponsors@ == prior.sponsors@.update(k, updated)
                    };
                if k1 < k2 {
                    assert(prior.sponsors@[k1].public_key@ != request.public_key@);
                } else if k2 < k1 {
                    assert(prior.sponsors@[k2].public_key@ != request.public_key@);
                }
                assert(k1 == k2);
                assert(prior.sponsors@[k2] == fetched);
            }
            Ok(ReturnSponsor::from(updated))
        },
        None => Err(ApiError::SponsorNotFound),
    }
}

/// An activation request after its funding deposit was verified: refused
/// when the wallet key is unknown or the initial funding was already
/// confirmed; otherwise every row under the key becomes active and funded,
/// and the answer carries the row as fetched with the funding confirmed.
pub fn activate_sponsor(db: &mut Database, sponsor_public_key: &str, signature: String) -> (r:
    Result<ResponseData, ApiError>)
    requires
        old(db).wf(),
    ensures
        final(db).wf(),
        final(db).users == old(db).users,
        final(db).attempts == old(db).attempts,
        final(db).winners == old(db).winners,
        match r {
            Ok(data) => {
                &&& data.signature == signature
                &&& exists|k: int|
                    {
                        &&& 0 <= k < old(db).sponsors@.len()
                        &&& (#[trigger] old(db).sponsors@[k]).public_key@ == sponsor_public_key@
                        &&& !old(db).sponsors@[k].initial_funded
                        &&& data.sponsor == spec_return_sponsor(
                            Sponsor { initial_funded: true, ..old(db).sponsors@[k] },
                        )
                    }
                &&& final(db).sponsors@.len() == old(db).sponsors@.len()
                &&& forall|k: int|
                    0 <= k < old(db).sponsors@.len() ==> final(db).sponsors@[k] == (
                    if old(db).sponsors@[k].public_key@ == sponsor_public_key@ {
                        Sponsor { active: true, initial_funded: true, ..old(db).sponsors@[k] }
                    } else {
                        old(db).sponsors@[k]
                    })
            },
            Err(e) => *final(db) == *old(db) && match e {
                ApiError::SponsorNotFound => forall|k: int|
                    0 <= k < old(db).sponsors@.len() ==> (
                    #[trigger] old(db).sponsors@[k]).public_key@ != sponsor_public_key@,
                ApiError::AlreadyFunded => true,
                _ => false,
            },
        },
{
    let sponsor = match db.get_sponsor_by_public_key(sponsor_public_key) {
        Some(s) => s,
        None => {
            return Err(ApiError::SponsorNotFound);
        },
    };
    if sponsor.initial_funded {
        return Err(ApiError::AlreadyFunded);
    }
    db.update_sponsor_to_active(sponsor_public_key);
    let answered = Sponsor { initial_funded: true, ..sponsor };
    Ok(ResponseData { sponsor: ReturnSponsor::from(answered), signature })
}

/// Answers whether the phone number's latest attempt won and where the
/// winnings are claimed; nothing when the number never completed a call.
pub fn verify_winner(db: &Database, request: &WinnerRequest) -> (r: Option<WinnerResponse>)
    ensures
        match r {
            Some(response) => exists|a: Attempt|
                {
                    &&& #[trigger] db.attempts@.contains(a)
                    &&& a.phone_number@ == request.phone_number@
                    &&& response.is_winner == a.is_winner
                    &&& response.winner_url == Some(a.winner_url)
                    &&& forall|i: int|
                        0 <= i < db.attempts@.len() && (
                        #[trigger] db.attempts@[i]).phone_number@ == request.phone_number@
                            ==> db.attempts@[i].created_at <= a.created_at
                },
            None => forall|i: int|
                0 <= i < db.attempts@.len() ==> (#[trigger] db.attempts@[i]).phone_number@
                    != request.phone_number@,
        },
{
    match db.get_attempt_result_by_phone_number(request.phone_number.as_str()) {
        Some(attempt) => {
            let url = attempt.winner_url.clone();
            let response = WinnerResponse { is_winner: attempt.is_winner, winner_url: Some(url) };
            proof {
                assert(db.attempts@.contains(attempt));
            }
            Some(response)
        },
        None => None,
    }
}

/// Whether an attempt row carries a non-empty video address.
pub open spec fn has_video(a: Attempt) -> bool {
    a.video_url matches Some(u) && u@.len() > 0
}

/// The public listing: every attempt of the last fourteen days that has a
/// rendered video, projected to its public fields, in creation order.
pub fn attempt_list(db: &Database, now: i64) -> (r: Vec<AttemptReturn>)
    requires
        0 <= now,
    ensures
        r@ == db.attempts@.filter(|a: Attempt| now - 1209600000 <= a.created_at <= now).filter(
            |a: Attempt| has_video(a),
        ).map_values(|a: Attempt| spec_attempt_return(a)),
{
    let recent = db.get_all_attempts_last_14_days(now);
    let ghost f = |a: Attempt| has_video(a);
    let ghost g = |a: Attempt| spec_attempt_return(a);
    let mut out: Vec<AttemptReturn> = Vec::new();
    let n = recent.len();
    let mut i: usize = 0;
    proof {
        assert(recent@.take(0) =~= Seq::<Attempt>::empty());
        assert(out@ =~= recent@.take(0).filter(f).map_values(g));
    }
    while i < n
        invariant
            i <= n,
            n == recent@.len(),
            f == (|a: Attempt| has_video(a)),
            g == (|a: Attempt| spec_attempt_return(a)),
            out@ == recent@.take(i as int).filter(f).map_values(g),
        decreases n - i,
    {
        proof {
            assert(recent@.take(i + 1).drop_last() =~= recent@.take(i as int));
            reveal_with_fuel(Seq::filter, 2);
        }
        let keep = match &recent[i].video_url {
            Some(u) => u.as_str().unicode_len() > 0,
            None => false,
        };
        if keep {
            out.push(AttemptReturn::from(recent[i].clone()));
            proof {
                assert(out@ =~= recent@.take(i + 1).filter(f).map_values(g));
            }
        }
        i += 1;
    }
    proof {
        assert(recent@.take(n as int) =~= recent@);
    }
    out
}

/// The sponsors one user manages, projected to their public fields.
pub fn sponsor_list(db: &Database, user_id: &str) -> (r: Vec<ReturnSponsor>)
    ensures
        r@ == db.sponsors@.filter(|s: Sponsor| s.user_id@ == user_id@).map_values(
            |s: Sponsor| spec_return_sponsor(s),
        ),
{
    let owned = db.get_sponsor_by_user_id(user_id);
    let ghost g = |s: Sponsor| spec_return_sponsor(s);
    let mut out: Vec<ReturnSponsor> = Vec::new();
    let n = owned.len();
    let mut i: usize = 0;
    proof {
        assert(owned@.take(0) =~= Seq::<Sponsor>::empty());
        assert(out@ =~= owned@.take(0).map_values(g));
    }
    while i < n
        invariant
            i <= n,
            n == owned@.len(),
            g == (|s: Sponsor| spec_return_sponsor(s)),
            out@ == owned@.take(i as int).map_values(g),
        decreases n - i,
    {
        out.push(ReturnSponsor::from(owned[i].clone()));
        proof {
            assert(owned@.take(i + 1).drop_last() =~= owned@.take(i as int));
            assert(out@ =~= owned@.take(i + 1).map_values(g));
        }
        i += 1;
    }
    proof {
        assert(owned@.take(n as int) =~= owned@);
    }
    out
}

/// The claim page lookup: a valid claim key names its winner and the
/// winner's sponsor; an unknown key is unauthorized, and a winner whose
/// sponsor row is gone cannot be served.
pub fn verify(db: &Database, key: &str) -> (r: Result<ClaimPage, ApiError>)
    requires
        db.wf(),
    ensures
        match r {
            Ok(page) => {
                &&& db.winners@.contains(page.winner)
                &&& page.winner.key@ == key@
                &&& db.has_sponsor(page.winner.sponsor_id)
                &&& page.sponsor == db.sponsor_by_id(page.winner.sponsor_id)
            },
            Err(e) => match e {
                ApiError::Unauthorized => forall|i: int|
                    0 <= i < db.winners@.len() ==> (#[trigger] db.winners@[i]).key@ != key@,
                ApiError::SponsorNotFound => true,
                _ => false,
            },
        },
{
    let winner = match db.get_winner_by_key(key) {
        Some(w) => w,
        None => {
            return Err(ApiError::Unauthorized);
        },
    };
    let sponsor = match db.get_sponsor_by_id(winner.sponsor_id) {
        Some(s) => s,
        None => {
            return Err(ApiError::SponsorNotFound);
        },
    };
    Ok(ClaimPage { winner, sponsor })
}

/// Renders the claim page data for a verified winner and sponsor.
pub fn page_handler(winner: crate::records::Winner, sponsor: Sponsor) -> (r: ClaimPage)
    ensures
        r.winner == winner,
        r.sponsor == sponsor,
{
    ClaimPage { winner, sponsor }
}

/// Whether a presented review token is the configured one.
pub fn check_token(token: &str, secrets: &Secrets) -> (r: bool)
    ensures
        r == (token@ == secrets.review_token@),
{
    str_eq(token, secrets.review_token.as_str())
}

} // verus!
