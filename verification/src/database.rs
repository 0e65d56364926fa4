//! An exact model of the persistent game records and the narrow read/update
//! operations the call flow performs on them: sponsors with token balances,
//! callers with daily counters, one attempt row per call, and winner rows.
//!
//! The conditional debit in [`Database::withdraw_tokens`] is the
//! concurrency-safety boundary of the settlement pipeline: the backing store
//! serializes debits, so each debit observes the balance at commit time and
//! only succeeds while it still covers one reward.

use crate::records::{Attempt, Sponsor, UpdateSponsorArgs, User, WithdrawnTokens, Winner};
use crate::text::str_eq;
use vstd::prelude::*;

verus! {

/// A sponsor after one successful debit of its reward amount.
pub open spec fn spec_debit(s: Sponsor) -> Sponsor {
    Sponsor { available_tokens: (s.available_tokens - s.reward_tokens) as i64, ..s }
}

/// A debit of `s` succeeds exactly while the available balance covers one
/// reward.
pub open spec fn spec_debit_allowed(s: Sponsor) -> bool {
    s.available_tokens >= s.reward_tokens
}

/// The in-memory image of the persistent store.
pub struct Database {
    pub sponsors: Vec<Sponsor>,
    pub users: Vec<User>,
    pub attempts: Vec<Attempt>,
    pub winners: Vec<Winner>,
    pub next_sponsor_id: i32,
    pub next_winner_id: i32,
    pub next_attempt_id: i32,
}

impl Database {
    /// Row invariants: balances never negative, sponsor ids unique and below
    /// the id counter, one row per phone number, and counters with room to
    /// count one more call.
    pub open spec fn wf(self) -> bool {
        &&& forall|i: int| 0 <= i < self.sponsors@.len() ==> (#[trigger] self.sponsors@[i]).wf()
        &&& forall|i: int|
            0 <= i < self.sponsors@.len() ==> (#[trigger] self.sponsors@[i]).id
                < self.next_sponsor_id
        &&& forall|i: int, j: int|
            0 <= i < j < self.sponsors@.len() ==> (#[trigger] self.sponsors@[i]).id != (
            #[trigger] self.sponsors@[j]).id
        &&& forall|i: int, j: int|
            0 <= i < j < self.users@.len() ==> (#[trigger] self.users@[i]).phone_number@ != (
            #[trigger] self.users@[j]).phone_number@
        &&& forall|i: int|
            0 <= i < self.users@.len() ==> 0 <= (#[trigger] self.users@[i]).attempts_today
        &&& 0 <= self.next_winner_id
        &&& 0 <= self.next_attempt_id
        &&& 0 <= self.next_sponsor_id
    }

    /// Whether a sponsor row with this id exists.
    pub open spec fn has_sponsor(self, id: i32) -> bool {
        exists|i: int| 0 <= i < self.sponsors@.len() && (#[trigger] self.sponsors@[i]).id == id
    }

    /// The slot of the sponsor row with this id.
    pub open spec fn sponsor_slot(self, id: i32) -> int {
        choose|i: int| 0 <= i < self.sponsors@.len() && (#[trigger] self.sponsors@[i]).id == id
    }

    /// The sponsor row with this id.
    pub open spec fn sponsor_by_id(self, id: i32) -> Sponsor {
        self.sponsors@[self.sponsor_slot(id)]
    }

    /// Whether a user row with this phone number exists.
    pub open spec fn has_user(self, phone: Seq<char>) -> bool {
        exists|i: int|
            0 <= i < self.users@.len() && (#[trigger] self.users@[i]).phone_number@ == phone
    }

    /// The slot of the user row with this phone number.
    pub open spec fn user_slot(self, phone: Seq<char>) -> int {
        choose|i: int|
            0 <= i < self.users@.len() && (#[trigger] self.users@[i]).phone_number@ == phone
    }

    /// The user row with this phone number.
    pub open spec fn user_by_phone(self, phone: Seq<char>) -> User {
        self.users@[self.user_slot(phone)]
    }

    /// An empty store.
    pub fn new() -> (r: Database)
        ensures
            r.wf(),
            r.sponsors@ == Seq::<Sponsor>::empty(),
            r.users@ == Seq::<User>::empty(),
            r.attempts@ == Seq::<Attempt>::empty(),
            r.winners@ == Seq::<Winner>::empty(),
    {
        Database {
            sponsors: Vec::new(),
            users: Vec::new(),
            attempts: Vec::new(),
            winners: Vec::new(),
            next_sponsor_id: 1,
            next_winner_id: 1,
            next_attempt_id: 1,
        }
    }

    /// One sponsor that is active and can still cover one reward, picked by
    /// the caller-supplied lot among all such rows; nothing while no sponsor
    /// qualifies. The backing store draws the lot at random; here the lot
    /// indexes the qualifying rows in stored order.
    pub fn get_random_sponsor(&self, pick: usize) -> (r: Option<Sponsor>)
        ensures
            ({
                let qualifying = self.sponsors@.filter(|s: Sponsor| s.spec_eligible());
                if qualifying.len() == 0 {
                    r is None
                } else {
                    r == Some(qualifying[(pick as int) % (qualifying.len() as int)])
                }
            }),
    {
        let ghost f = |s: Sponsor| s.spec_eligible();
        let mut eligible: Vec<&Sponsor> = Vec::new();
        let n = self.sponsors.len();
        let mut i: usize = 0;
        proof {
            assert(self.sponsors@.take(0) =~= Seq::<Sponsor>::empty());
            assert(eligible@.map_values(|p: &Sponsor| *p) =~= self.sponsors@.take(0).filter(f));
        }
        while i < n
            invariant
                i <= n,
                n == self.sponsors@.len(),
                f == (|s: Sponsor| s.spec_eligible()),
                eligible@.map_values(|p: &Sponsor| *p) == self.sponsors@.take(i as int).filter(f),
            decreases n - i,
        {
            proof {
                assert(self.sponsors@.take(i + 1).drop_last() =~= self.sponsors@.take(i as int));
                reveal_with_fuel(Seq::filter, 2);
            }
            if self.sponsors[i].eligible() {
                eligible.push(&self.sponsors[i]);
                proof {
                    assert(eligible@.map_values(|p: &Sponsor| *p) =~= self.sponsors@.take(
                        i + 1,
                    ).filter(f));
                }
            }
            i += 1;
        }
        proof {
            assert(self.sponsors@.take(n as int) =~= self.sponsors@);
        }
        if eligible.len() == 0 {
            None
        } else {
            let chosen = eligible[pick % eligible.len()].clone();
            proof {
                assert(chosen == eligible@.map_values(|p: &Sponsor| *p)[(pick as int) % (
                eligible@.len() as int)]);
            }
            Some(chosen)
        }
    }

    /// The sponsor row with the given id, if any.
    pub fn get_sponsor_by_id(&self, id: i32) -> (r: Option<Sponsor>)
        requires
            self.wf(),
        ensures
            match r {
                Some(s) => self.has_sponsor(id) && s == self.sponsor_by_id(id),
                None => !self.has_sponsor(id),
            },
    {
        let n = self.sponsors.len();
        let mut i: usize = 0;
        while i < n
            invariant
                i <= n,
                n == self.sponsors@.len(),
                self.wf(),
                forall|k: int| 0 <= k < i ==> (#[trigger] self.sponsors@[k]).id != id,
            decreases n - i,
        {
            if self.sponsors[i].id == id {
                proof {
                    assert(self.has_sponsor(id));
                    let w = self.sponsor_slot(id);
                    assert(self.sponsors@[w].id == id);
                    assert(w == i as int);
                }
                return Some(self.sponsors[i].clone());
            }
            i += 1;
        }
        None
    }

    /// The first sponsor row carrying the given wallet public key, if any.
    pub fn get_sponsor_by_public_key(&self, public_key: &str) -> (r: Option<Sponsor>)
        ensures
            match r {
                Some(s) => self.sponsors@.contains(s) && s.public_key@ == public_key@ && exists|
                    k: int,
                |
                    {
                        &&& 0 <= k < self.sponsors@.len()
                        &&& s == (#[trigger] self.sponsors@[k])
                        &&& forall|x: int|
                            0 <= x < k ==> (#[trigger] self.sponsors@[x]).public_key@
                                != public_key@
                    },
                None => forall|i: int|
                    0 <= i < self.sponsors@.len() ==> (#[trigger] self.sponsors@[i]).public_key@
                        != public_key@,
            },
    {
        let n = self.sponsors.len();
        let mut i: usize = 0;
        while i < n
            invariant
                i <= n,
                n == self.sponsors@.len(),
                forall|k: int|
                    0 <= k < i ==> (#[trigger] self.sponsors@[k]).public_key@ != public_key@,
            decreases n - i,
        {
            if str_eq(self.sponsors[i].public_key.as_str(), public_key) {
                return Some(self.sponsors[i].clone());
            }
            i += 1;
        }
        None
    }

    /// Every sponsor row owned by the given user, in stored order.
    pub fn get_sponsor_by_user_id(&self, user_id: &str) -> (r: Vec<Sponsor>)
        ensures
            r@ == self.sponsors@.filter(|s: Sponsor| s.user_id@ == user_id@),
    {
        let mut out: Vec<Sponsor> = Vec::new();
        let n = self.sponsors.len();
        let mut i: usize = 0;
        proof {
            assert(self.sponsors@.take(0) =~= Seq::<Sponsor>::empty());
            assert(out@ =~= self.sponsors@.take(0).filter(|s: Sponsor| s.user_id@ == user_id@));
        }
        while i < n
            invariant
                i <= n,
                n == self.sponsors@.len(),
                out@ == self.sponsors@.take(i as int).filter(|s: Sponsor| s.user_id@ == user_id@),
            decreases n - i,
        {
            proof {
                assert(self.sponsors@.take(i + 1).drop_last() =~= self.sponsors@.take(i as int));
                reveal_with_fuel(Seq::filter, 2);
            }
            if str_eq(self.sponsors[i].user_id.as_str(), user_id) {
                out.push(self.sponsors[i].clone());
            }
            i += 1;
        }
        proof {
            assert(self.sponsors@.take(n as int) =~= self.sponsors@);
        }
        out
    }

    /// The conditional reward debit, the linearization point for payout
    /// exclusivity. It subtracts one reward from the sponsor's available
    /// balance and reports the amount, but only while the balance covers it;
    /// the row is untouched otherwise, so the balance never goes negative.
    pub fn withdraw_tokens(&mut self, sponsor_id: i32) -> (r: Option<WithdrawnTokens>)
        requires
            old(self).wf(),
        ensures
            final(self).wf(),
            final(self).users == old(self).users,
            final(self).attempts == old(self).attempts,
            final(self).winners == old(self).winners,
            final(self).next_sponsor_id == old(self).next_sponsor_id,
            final(self).next_winner_id == old(self).next_winner_id,
            final(self).next_attempt_id == old(self).next_attempt_id,
            old(self).has_sponsor(sponsor_id) && spec_debit_allowed(
                old(self).sponsor_by_id(sponsor_id),
            ) ==> {
                &&& final(self).sponsors@ == old(self).sponsors@.update(
                    old(self).sponsor_slot(sponsor_id),
                    spec_debit(old(self).sponsor_by_id(sponsor_id)),
                )
                &&& r matches Some(w) && w.amount == old(self).sponsor_by_id(
                    sponsor_id,
                ).reward_tokens
            },
            !(old(self).has_sponsor(sponsor_id) && spec_debit_allowed(
                old(self).sponsor_by_id(sponsor_id),
            )) ==> *final(self) == *old(self) && r is None,
    {
        let ghost prior = *self;
        let n = self.sponsors.len();
        let mut i: usize = 0;
        while i < n
            invariant
                i <= n,
                n == self.sponsors@.len(),
                *self == prior,
                prior == *old(self),
                prior.wf(),
                forall|k: int| 0 <= k < i ==> (#[trigger] self.sponsors@[k]).id != sponsor_id,
            decreases n - i,
        {
            if self.sponsors[i].id == sponsor_id {
                proof {
                    assert(prior.has_sponsor(sponsor_id));
                    let w = prior.sponsor_slot(sponsor_id);
                    assert(prior.sponsors@[w].id == sponsor_id);
                    assert(w == i as int);
                }
                let row = &self.sponsors[i];
                if row.available_tokens >= row.reward_tokens {
                    let amount = row.reward_tokens;
                    let updated = Sponsor {
                        available_tokens: row.available_tokens - row.reward_tokens,
                        ..row.clone()
                    };
                    self.sponsors[i] = updated;
                    proof {
                        assert(self.sponsors@ =~= prior.sponsors@.update(
                            i as int,
                            spec_debit(prior.sponsor_by_id(sponsor_id)),
                        ));
                        assert forall|a: int| 0 <= a < self.sponsors@.len() implies (
                        #[trigger] self.sponsors@[a]).id == prior.sponsors@[a].id
                            && self.sponsors@[a].wf() by {
                            if a != i as int {
                                assert(self.sponsors@[a] == prior.sponsors@[a]);
                            }
                        }
                    }
                    return Some(WithdrawnTokens { amount });
                } else {
                    return None;
                }
            }
            i += 1;
        }
        None
    }

    /// Looks up the caller by phone number, counting this call: a fresh row
    /// starts at one attempt today, an existing row's counter grows by one
    /// (the date field is left for the daily-reset step that follows).
    pub fn get_or_insert_user_by_phone_number(&mut self, phone_number: &str, today: i64) -> (r:
        User)
        requires
            old(self).wf(),
            old(self).has_user(phone_number@) ==> old(self).user_by_phone(
                phone_number@,
            ).attempts_today < i32::MAX,
        ensures
            final(self).wf(),
            final(self).sponsors == old(self).sponsors,
            final(self).attempts == old(self).attempts,
            final(self).winners == old(self).winners,
            final(self).next_sponsor_id == old(self).next_sponsor_id,
            final(self).next_winner_id == old(self).next_winner_id,
            final(self).next_attempt_id == old(self).next_attempt_id,
            r.phone_number@ == phone_number@,
            final(self).has_user(phone_number@),
            final(self).user_by_phone(phone_number@) == r,
            old(self).has_user(phone_number@) ==> {
                &&& r.attempts_today == old(self).user_by_phone(phone_number@).attempts_today + 1
                &&& r.last_attempt == old(self).user_by_phone(phone_number@).last_attempt
                &&& r.banned == old(self).user_by_phone(phone_number@).banned
                &&& final(self).users@ == old(self).users@.update(
                    old(self).user_slot(phone_number@),
                    r,
                )
            },
            !old(self).has_user(phone_number@) ==> {
                &&& r.attempts_today == 1
                &&& r.last_attempt == today
                &&& !r.banned
                &&& final(self).users@ == old(self).users@.push(r)
            },
    {
        let ghost prior = *self;
        let n = self.users.len();
        let mut i: usize = 0;
        while i < n
            invariant
                i <= n,
                n == self.users@.len(),
                *self == prior,
                prior == *old(self),
                prior.wf(),
                prior.has_user(phone_number@) ==> prior.user_by_phone(
                    phone_number@,
                ).attempts_today < i32::MAX,
                forall|k: int| 0 <= k < i ==> (#[trigger] self.users@[k]).phone_number@
                    != phone_number@,
            decreases n - i,
        {
            if str_eq(self.users[i].phone_number.as_str(), phone_number) {
                proof {
                    assert(prior.has_user(phone_number@));
                    let w = prior.user_slot(phone_number@);
                    assert(prior.users@[w].phone_number@ == phone_number@);
                    assert(w == i as int);
                }
                let row = &self.users[i];
                let updated = User { attempts_today: row.attempts_today + 1, ..row.clone() };
                self.users[i] = updated.clone();
                proof {
                    assert(self.users@ =~= prior.users@.update(i as int, updated));
                    assert forall|a: int| 0 <= a < self.users@.len() implies (
                    #[trigger] self.users@[a]).phone_number@ == prior.users@[a].phone_number@
                        && 0 <= self.users@[a].attempts_today by {
                        if a != i as int {
                            assert(self.users@[a] == prior.users@[a]);
                        }
                    }
                    assert(self.wf());
                    assert(self.users@[i as int].phone_number@ == phone_number@);
                    assert(self.has_user(phone_number@));
                    let w2 = self.user_slot(phone_number@);
                    assert(self.users@[w2].phone_number@ == phone_number@);
                    assert(w2 == i as int);
                }
                return updated;
            }
            i += 1;
        }
        let fresh = User {
            phone_number: phone_number.to_owned(),
            attempts_today: 1,
            last_attempt: today,
            banned: false,
        };
        self.users.push(fresh.clone());
        proof {
            let n2 = prior.users@.len() as int;
            assert(self.users@[n2].phone_number@ == phone_number@);
            assert(self.has_user(phone_number@));
            let w2 = self.user_slot(phone_number@);
            assert(self.users@[w2].phone_number@ == phone_number@);
            assert(w2 == n2);
        }
        fresh
    }

    /// Writes the caller's counter, ban flag and the current day back to the
    /// caller's row; a caller the store has never seen is left as is.
    pub fn update_user(&mut self, user: &User, today: i64)
        requires
            old(self).wf(),
            0 <= user.attempts_today,
        ensures
            final(self).wf(),
            final(self).sponsors == old(self).sponsors,
            final(self).attempts == old(self).attempts,
            final(self).winners == old(self).winners,
            final(self).next_sponsor_id == old(self).next_sponsor_id,
            final(self).next_winner_id == old(self).next_winner_id,
            final(self).next_attempt_id == old(self).next_attempt_id,
            old(self).has_user(user.phone_number@) ==> final(self).users@ == old(
                self,
            ).users@.update(
                old(self).user_slot(user.phone_number@),
                User {
                    phone_number: old(self).user_by_phone(user.phone_number@).phone_number,
                    attempts_today: user.attempts_today,
                    last_attempt: today,
                    banned: user.banned,
                },
            ),
            !old(self).has_user(user.phone_number@) ==> *final(self) == *old(self),
    {
        let ghost prior = *self;
        let n = self.users.len();
        let mut i: usize = 0;
        while i < n
            invariant
                i <= n,
                n == self.users@.len(),
                *self == prior,
                prior == *old(self),
                prior.wf(),
                0 <= user.attempts_today,
                forall|k: int| 0 <= k < i ==> (#[trigger] self.users@[k]).phone_number@
                    != user.phone_number@,
            decreases n - i,
        {
            if str_eq(self.users[i].phone_number.as_str(), user.phone_number.as_str()) {
                proof {
                    assert(prior.has_user(user.phone_number@));
                    let w = prior.user_slot(user.phone_number@);
                    assert(prior.users@[w].phone_number@ == user.phone_number@);
                    assert(w == i as int);
                }
                let phone = self.users[i].phone_number.clone();
                let replacement = User {
                    phone_number: phone,
                    attempts_today: user.attempts_today,
                    last_attempt: today,
                    banned: user.banned,
                };
                self.users[i] = replacement;
                proof {
                    assert forall|a: int| 0 <= a < self.users@.len() implies (
                    #[trigger] self.users@[a]).phone_number@ == prior.users@[a].phone_number@
                        && 0 <= self.users@[a].attempts_today by {
                        if a != i as int {
                            assert(self.users@[a] == prior.users@[a]);
                        }
                    }
                    assert(self.users@ =~= prior.users@.update(
                        i as int,
                        User {
                            phone_number: prior.user_by_phone(user.phone_number@).phone_number,
                            attempts_today: user.attempts_today,
                            last_attempt: today,
                            banned: user.banned,
                        },
                    ));
                }
                return ;
            }
            i += 1;
        }
    }

    /// Stores a new winner row under a fresh id; the key is the claim
    /// credential generated for this win.
    pub fn create_winner(&mut self, name: String, sponsor_id: i32, key: String) -> (r: Winner)
        requires
            old(self).wf(),
            old(self).next_winner_id < i32::MAX,
        ensures
            final(self).wf(),
            final(self).sponsors == old(self).sponsors,
            final(self).users == old(self).users,
            final(self).attempts == old(self).attempts,
            final(self).next_sponsor_id == old(self).next_sponsor_id,
            final(self).next_attempt_id == old(self).next_attempt_id,
            final(self).winners@ == old(self).winners@.push(r),
            r.name == name,
            r.sponsor_id == sponsor_id,
            r.key == key,
    {
        let winner = Winner { id: self.next_winner_id, key, name, sponsor_id };
        self.next_winner_id += 1;
        self.winners.push(winner.clone());
        winner
    }

    /// The first winner row carrying the given claim key, if any.
    pub fn get_winner_by_key(&self, key: &str) -> (r: Option<Winner>)
        ensures
            match r {
                Some(w) => self.winners@.contains(w) && w.key@ == key@,
                None => forall|i: int|
                    0 <= i < self.winners@.len() ==> (#[trigger] self.winners@[i]).key@ != key@,
            },
    {
        let n = self.winners.len();
        let mut i: usize = 0;
        while i < n
            invariant
                i <= n,
                n == self.winners@.len(),
                forall|k: int| 0 <= k < i ==> (#[trigger] self.winners@[k]).key@ != key@,
            decreases n - i,
        {
            if str_eq(self.winners[i].key.as_str(), key) {
                return Some(self.winners[i].clone());
            }
            i += 1;
        }
        None
    }

    /// Stores a new sponsor row under a fresh id.
    pub fn create_sponsor(&mut self, sponsor: Sponsor) -> (r: Sponsor)
        requires
            old(self).wf(),
            sponsor.wf(),
            old(self).next_sponsor_id < i32::MAX,
        ensures
            final(self).wf(),
            final(self).users == old(self).users,
            final(self).attempts == old(self).attempts,
            final(self).winners == old(self).winners,
            final(self).next_winner_id == old(self).next_winner_id,
            final(self).next_attempt_id == old(self).next_attempt_id,
            final(self).sponsors@ == old(self).sponsors@.push(r),
            r == (Sponsor { id: old(self).next_sponsor_id, ..sponsor }),
    {
        let stored = Sponsor { id: self.next_sponsor_id, ..sponsor };
        self.next_sponsor_id += 1;
        self.sponsors.push(stored.clone());
        proof {
            assert forall|a: int| 0 <= a < self.sponsors@.len() implies (
            #[trigger] self.sponsors@[a]).id < self.next_sponsor_id
                && self.sponsors@[a].wf() by {
                if a < self.sponsors@.len() - 1 {
                    assert(self.sponsors@[a] == old(self).sponsors@[a]);
                }
            }
        }
        stored
    }

    /// Marks every sponsor row with the given wallet key as active and
    /// initially funded, once the funding deposit has been confirmed.
    pub fn update_sponsor_to_active(&mut self, sponsor_public_key: &str)
        requires
            old(self).wf(),
        ensures
            final(self).wf(),
            final(self).users == old(self).users,
            final(self).attempts == old(self).attempts,
            final(self).winners == old(self).winners,
            final(self).next_sponsor_id == old(self).next_sponsor_id,
            final(self).next_winner_id == old(self).next_winner_id,
            final(self).next_attempt_id == old(self).next_attempt_id,
            final(self).sponsors@.len() == old(self).sponsors@.len(),
            forall|k: int|
                0 <= k < old(self).sponsors@.len() ==> final(self).sponsors@[k] == (
                if old(self).sponsors@[k].public_key@ == sponsor_public_key@ {
                    Sponsor { active: true, initial_funded: true, ..old(self).sponsors@[k] }
                } else {
                    old(self).sponsors@[k]
                }),
    {
        let ghost prior = *self;
        let n = self.sponsors.len();
        let mut i: usize = 0;
        while i < n
            invariant
                i <= n,
                n == self.sponsors@.len(),
                prior == *old(self),
                prior.wf(),
                self.sponsors@.len() == prior.sponsors@.len(),
                self.users == prior.users,
                self.attempts == prior.attempts,
                self.winners == prior.winners,
                self.next_sponsor_id == prior.next_sponsor_id,
                self.next_winner_id == prior.next_winner_id,
                self.next_attempt_id == prior.next_attempt_id,
                forall|k: int|
                    0 <= k < i ==> self.sponsors@[k] == (
                    if prior.sponsors@[k].public_key@ == sponsor_public_key@ {
                        Sponsor { active: true, initial_funded: true, ..prior.sponsors@[k] }
                    } else {
                        prior.sponsors@[k]
                    }),
                forall|k: int| i <= k < n ==> self.sponsors@[k] == prior.sponsors@[k],
            decreases n - i,
        {
            if str_eq(self.sponsors[i].public_key.as_str(), sponsor_public_key) {
                let row = &self.sponsors[i];
                let updated = Sponsor { active: true, initial_funded: true, ..row.clone() };
                self.sponsors[i] = updated;
            }
            i += 1;
        }
    }

    /// Rewrites the configurable fields of the first sponsor row carrying the
    /// given wallet key and returns the updated row; balances, wallet keys
    /// and the fixed texts stay as they are.
    pub fn update_sponsor(&mut self, update: &UpdateSponsorArgs) -> (r: Option<Sponsor>)
        requires
            old(self).wf(),
        ensures
            final(self).wf(),
            final(self).users == old(self).users,
            final(self).attempts == old(self).attempts,
            final(self).winners == old(self).winners,
            final(self).next_sponsor_id == old(self).next_sponsor_id,
            final(self).next_winner_id == old(self).next_winner_id,
            final(self).next_attempt_id == old(self).next_attempt_id,
            match r {
                Some(s) => exists|k: int|
                    {
                        &&& 0 <= k < old(self).sponsors@.len()
                        &&& (#[trigger] old(self).sponsors@[k]).public_key@ == update.public_key@
                        &&& forall|x: int|
                            0 <= x < k ==> (#[trigger] old(self).sponsors@[x]).public_key@
                                != update.public_key@
                        &&& s == spec_update_sponsor(old(self).sponsors@[k], *update)
                        &&& final(self).sponsors@ == old(self).sponsors@.update(k, s)
                    },
                None => *final(self) == *old(self) && forall|k: int|
                    0 <= k < old(self).sponsors@.len() ==> (
                    #[trigger] old(self).sponsors@[k]).public_key@ != update.public_key@,
            },
    {
        let ghost prior = *self;
        let n = self.sponsors.len();
        let mut i: usize = 0;
        while i < n
            invariant
                i <= n,
                n == self.sponsors@.len(),
                *self == prior,
                prior == *old(self),
                prior.wf(),
                forall|k: int|
                    0 <= k < i ==> (#[trigger] self.sponsors@[k]).public_key@
                        != update.public_key@,
            decreases n - i,
        {
            if str_eq(self.sponsors[i].public_key.as_str(), update.public_key.as_str()) {
                let row = &self.sponsors[i];
                let updated = Sponsor {
                    name: update.name.clone(),
                    active: update.active,
                    background_url: update.background_url.clone(),
                    challenge_time: update.challenge_time,
                    system_instruction: update.system_instruction.clone(),
                    start_text: update.start_text.clone(),
                    rating_threshold: update.rating_threshold,
                    challenge_text: update.challenge_text.clone(),
                    ..row.clone()
                };
                self.sponsors[i] = updated.clone();
                proof {
                    assert(self.sponsors@ =~= prior.sponsors@.update(i as int, updated));
                    assert forall|a: int| 0 <= a < self.sponsors@.len() implies (
                    #[trigger] self.sponsors@[a]).id == prior.sponsors@[a].id
                        && self.sponsors@[a].wf() by {
                        if a != i as int {
                            assert(self.sponsors@[a] == prior.sponsors@[a]);
                        }
                    }
                }
                return Some(updated);
            }
            i += 1;
        }
        None
    }

    /// Stores the attempt row for a freshly started call: the caller's phone
    /// number, the sponsor snapshot fields, and the call identifier.
    pub fn create_attempt_with_sponsor(
        &mut self,
        user: &User,
        sponsor: &Sponsor,
        call_sid: String,
        now: i64,
    )
        requires
            old(self).wf(),
            old(self).next_attempt_id < i32::MAX,
        ensures
            final(self).wf(),
            final(self).sponsors == old(self).sponsors,
            final(self).users == old(self).users,
            final(self).winners == old(self).winners,
            final(self).next_sponsor_id == old(self).next_sponsor_id,
            final(self).next_winner_id == old(self).next_winner_id,
            final(self).attempts@ == old(self).attempts@.push(final(self).attempts@.last()),
            ({
                let row = final(self).attempts@.last();
                &&& row.id == old(self).next_attempt_id
                &&& row.pubkey is None
                &&& row.phone_number == user.phone_number
                &&& row.created_at == now
                &&& row.updated_at == now
                &&& row.video_url is None
                &&& row.twitter_url is None
                &&& row.is_winner is None
                &&& row.sponsor_question == Some(sponsor.challenge_text)
                &&& row.sponsor_name == Some(sponsor.name)
                &&& row.sponsor_token_mint == Some(sponsor.token_mint)
                &&& row.sponsor_total_reward == Some(sponsor.original_tokens)
                &&& row.sponsor_attempt_reward == Some(sponsor.reward_tokens)
                &&& row.sponsor_background_url == Some(sponsor.background_url)
                &&& row.sponsor_challenge_time == Some(sponsor.challenge_time)
                &&& row.challenge_transcript is None
                &&& row.challenge_status is None
                &&& row.winner_url@ == Seq::<char>::empty()
                &&& row.call_sid == call_sid
            }),
    {
        let row = Attempt {
            id: self.next_attempt_id,
            pubkey: None,
            phone_number: user.phone_number.clone(),
            created_at: now,
            updated_at: now,
            video_url: None,
            twitter_url: None,
            is_winner: None,
            sponsor_question: Some(sponsor.challenge_text.clone()),
            sponsor_name: Some(sponsor.name.clone()),
            sponsor_token_mint: Some(sponsor.token_mint.clone()),
            sponsor_total_reward: Some(sponsor.original_tokens),
            sponsor_attempt_reward: Some(sponsor.reward_tokens),
            sponsor_background_url: Some(sponsor.background_url.clone()),
            sponsor_challenge_time: Some(sponsor.challenge_time),
            challenge_transcript: None,
            challenge_status: None,
            winner_url: String::new(),
            call_sid,
        };
        self.next_attempt_id += 1;
        self.attempts.push(row);
        proof {
            assert(self.attempts@ =~= old(self).attempts@.push(self.attempts@.last()));
        }
    }

    /// The first attempt row carrying the given claim public key, if any.
    pub fn get_attempt_by_pubkey(&self, public_key: &str) -> (r: Option<Attempt>)
        ensures
            match r {
                Some(a) => self.attempts@.contains(a) && (a.pubkey matches Some(p) && p@
                    == public_key@),
                None => forall|i: int|
                    0 <= i < self.attempts@.len() ==> !((#[trigger] self.attempts@[i]).pubkey
                        matches Some(p) && p@ == public_key@),
            },
    {
        let n = self.attempts.len();
        let mut i: usize = 0;
        while i < n
            invariant
                i <= n,
                n == self.attempts@.len(),
                forall|k: int|
                    0 <= k < i ==> !((#[trigger] self.attempts@[k]).pubkey matches Some(p) && p@
                        == public_key@),
            decreases n - i,
        {
            match &self.attempts[i].pubkey {
                Some(p) => {
                    if str_eq(p.as_str(), public_key) {
                        return Some(self.attempts[i].clone());
                    }
                },
                None => {
                },
            }
            i += 1;
        }
        None
    }

    /// The first attempt row for the given call identifier, if any.
    pub fn get_attempt_by_sid(&self, call_sid: &str) -> (r: Option<Attempt>)
        ensures
            match r {
                Some(a) => self.attempts@.contains(a) && a.call_sid@ == call_sid@,
                None => forall|i: int|
                    0 <= i < self.attempts@.len() ==> (#[trigger] self.attempts@[i]).call_sid@
                        != call_sid@,
            },
    {
        let n = self.attempts.len();
        let mut i: usize = 0;
        while i < n
            invariant
                i <= n,
                n == self.attempts@.len(),
                forall|k: int| 0 <= k < i ==> (#[trigger] self.attempts@[k]).call_sid@
                    != call_sid@,
            decreases n - i,
        {
            if str_eq(self.attempts[i].call_sid.as_str(), call_sid) {
                return Some(self.attempts[i].clone());
            }
            i += 1;
        }
        None
    }

    /// The most recent attempt row for the given phone number: a row no other
    /// row for that number postdates; nothing when the number never called.
    pub fn get_attempt_result_by_phone_number(&self, phone_number: &str) -> (r: Option<Attempt>)
        ensures
            match r {
                Some(a) => {
                    &&& self.attempts@.contains(a)
                    &&& a.phone_number@ == phone_number@
                    &&& forall|i: int|
                        0 <= i < self.attempts@.len() && (
                        #[trigger] self.attempts@[i]).phone_number@ == phone_number@
                            ==> self.attempts@[i].created_at <= a.created_at
                },
                None => forall|i: int|
                    0 <= i < self.attempts@.len() ==> (#[trigger] self.attempts@[i]).phone_number@
                        != phone_number@,
            },
    {
        let n = self.attempts.len();
        let mut i: usize = 0;
        let mut latest: Option<&Attempt> = None;
        while i < n
            invariant
                i <= n,
                n == self.attempts@.len(),
                match latest {
                    Some(a) => {
                        &&& self.attempts@.contains(*a)
                        &&& a.phone_number@ == phone_number@
                        &&& forall|k: int|
                            0 <= k < i && (#[trigger] self.attempts@[k]).phone_number@
                                == phone_number@ ==> self.attempts@[k].created_at <= a.created_at
                    },
                    None => forall|k: int|
                        0 <= k < i ==> (#[trigger] self.attempts@[k]).phone_number@
                            != phone_number@,
                },
            decreases n - i,
        {
            if str_eq(self.attempts[i].phone_number.as_str(), phone_number) {
                let better = match latest {
                    Some(a) => a.created_at <= self.attempts[i].created_at,
                    None => true,
                };
                if better {
                    latest = Some(&self.attempts[i]);
                }
            }
            i += 1;
        }
        match latest {
            Some(a) => Some(a.clone()),
            None => None,
        }
    }

    /// Every attempt row created within the last fourteen days before `now`,
    /// in creation order.
    pub fn get_all_attempts_last_14_days(&self, now: i64) -> (r: Vec<Attempt>)
        requires
            0 <= now,
        ensures
            r@ == self.attempts@.filter(
                |a: Attempt| now - 1209600000 <= a.created_at <= now,
            ),
    {
        let lo: i64 = now - 1209600000;
        let mut out: Vec<Attempt> = Vec::new();
        let n = self.attempts.len();
        let mut i: usize = 0;
        proof {
            assert(self.attempts@.take(0) =~= Seq::<Attempt>::empty());
            assert(out@ =~= self.attempts@.take(0).filter(
                |a: Attempt| now - 1209600000 <= a.created_at <= now,
            ));
        }
        while i < n
            invariant
                i <= n,
                lo == now - 1209600000,
                n == self.attempts@.len(),
                out@ == self.attempts@.take(i as int).filter(
                    |a: Attempt| now - 1209600000 <= a.created_at <= now,
                ),
            decreases n - i,
        {
            proof {
                assert(self.attempts@.take(i + 1).drop_last() =~= self.attempts@.take(i as int));
                reveal_with_fuel(Seq::filter, 2);
            }
            if lo <= self.attempts[i].created_at && self.attempts[i].created_at <= now {
                out.push(self.attempts[i].clone());
            }
            i += 1;
        }
        proof {
            assert(self.attempts@.take(n as int) =~= self.attempts@);
        }
        out
    }

    /// Writes the rendered video's address onto this call's attempt row.
    pub fn update_attempt_video(
        &mut self,
        caller_phone_number: &str,
        video_url: String,
        call_sid: &str,
    )
        requires
            old(self).wf(),
        ensures
            final(self).wf(),
            final(self).sponsors == old(self).sponsors,
            final(self).users == old(self).users,
            final(self).winners == old(self).winners,
            final(self).next_sponsor_id == old(self).next_sponsor_id,
            final(self).next_winner_id == old(self).next_winner_id,
            final(self).next_attempt_id == old(self).next_attempt_id,
            final(self).attempts@.len() == old(self).attempts@.len(),
            forall|k: int|
                0 <= k < old(self).attempts@.len() ==> final(self).attempts@[k] == (
                if old(self).attempts@[k].phone_number@ == caller_phone_number@ && old(
                    self,
                ).attempts@[k].call_sid@ == call_sid@ {
                    Attempt { video_url: Some(video_url), ..old(self).attempts@[k] }
                } else {
                    old(self).attempts@[k]
                }),
    {
        let ghost prior = *self;
        let n = self.attempts.len();
        let mut i: usize = 0;
        while i < n
            invariant
                i <= n,
                n == self.attempts@.len(),
                prior == *old(self),
                prior.wf(),
                self.sponsors == prior.sponsors,
                self.users == prior.users,
                self.winners == prior.winners,
                self.next_sponsor_id == prior.next_sponsor_id,
                self.next_winner_id == prior.next_winner_id,
                self.next_attempt_id == prior.next_attempt_id,
                self.attempts@.len() == prior.attempts@.len(),
                forall|k: int|
                    0 <= k < i ==> self.attempts@[k] == (
                    if prior.attempts@[k].phone_number@ == caller_phone_number@
                        && prior.attempts@[k].call_sid@ == call_sid@ {
                        Attempt { video_url: Some(video_url), ..prior.attempts@[k] }
                    } else {
                        prior.attempts@[k]
                    }),
                forall|k: int| i <= k < n ==> self.attempts@[k] == prior.attempts@[k],
            decreases n - i,
        {
            if str_eq(self.attempts[i].phone_number.as_str(), caller_phone_number) && str_eq(
                self.attempts[i].call_sid.as_str(),
                call_sid,
            ) {
                let row = &self.attempts[i];
                let updated = Attempt { video_url: Some(video_url.clone()), ..row.clone() };
                self.attempts[i] = updated;
            }
            i += 1;
        }
    }

    /// Writes the final win-or-lose outcome onto this call's attempt row.
    pub fn update_attempt_winner(
        &mut self,
        caller_phone_number: &str,
        is_winner: bool,
        call_sid: &str,
    )
        requires
            old(self).wf(),
        ensures
            final(self).wf(),
            final(self).sponsors == old(self).sponsors,
            final(self).users == old(self).users,
            final(self).winners == old(self).winners,
            final(self).next_sponsor_id == old(self).next_sponsor_id,
            final(self).next_winner_id == old(self).next_winner_id,
            final(self).next_attempt_id == old(self).next_attempt_id,
            final(self).attempts@.len() == old(self).attempts@.len(),
            forall|k: int|
                0 <= k < old(self).attempts@.len() ==> final(self).attempts@[k] == (
                if old(self).attempts@[k].phone_number@ == caller_phone_number@ && old(
                    self,
                ).attempts@[k].call_sid@ == call_sid@ {
                    Attempt { is_winner: Some(is_winner), ..old(self).attempts@[k] }
                } else {
                    old(self).attempts@[k]
                }),
    {
        let ghost prior = *self;
        let n = self.attempts.len();
        let mut i: usize = 0;
        while i < n
            invariant
                i <= n,
                n == self.attempts@.len(),
                prior == *old(self),
                prior.wf(),
                self.sponsors == prior.sponsors,
                self.users == prior.users,
                self.winners == prior.winners,
                self.next_sponsor_id == prior.next_sponsor_id,
                self.next_winner_id == prior.next_winner_id,
                self.next_attempt_id == prior.next_attempt_id,
                self.attempts@.len() == prior.attempts@.len(),
                forall|k: int|
                    0 <= k < i ==> self.attempts@[k] == (
                    if prior.attempts@[k].phone_number@ == caller_phone_number@
                        && prior.attempts@[k].call_sid@ == call_sid@ {
                        Attempt { is_winner: Some(is_winner), ..prior.attempts@[k] }
                    } else {
                        prior.attempts@[k]
                    }),
                forall|k: int| i <= k < n ==> self.attempts@[k] == prior.attempts@[k],
            decreases n - i,
        {
            if str_eq(self.attempts[i].phone_number.as_str(), caller_phone_number) && str_eq(
                self.attempts[i].call_sid.as_str(),
                call_sid,
            ) {
                let row = &self.attempts[i];
                let updated = Attempt { is_winner: Some(is_winner), ..row.clone() };
                self.attempts[i] = updated;
            }
            i += 1;
        }
    }

    /// Writes the winner's claim link onto this call's attempt row.
    pub fn update_attempt_winner_url(
        &mut self,
        caller_phone_number: &str,
        winner_url: String,
        call_sid: &str,
    )
        requires
            old(self).wf(),
        ensures
            final(self).wf(),
            final(self).sponsors == old(self).sponsors,
            final(self).users == old(self).users,
            final(self).winners == old(self).winners,
            final(self).next_sponsor_id == old(self).next_sponsor_id,
            final(self).next_winner_id == old(self).next_winner_id,
            final(self).next_attempt_id == old(self).next_attempt_id,
            final(self).attempts@.len() == old(self).attempts@.len(),
            forall|k: int|
                0 <= k < old(self).attempts@.len() ==> final(self).attempts@[k] == (
                if old(self).attempts@[k].phone_number@ == caller_phone_number@ && old(
                    self,
                ).attempts@[k].call_sid@ == call_sid@ {
                    Attempt { winner_url: winner_url, ..old(self).attempts@[k] }
                } else {
                    old(self).attempts@[k]
                }),
    {
        let ghost prior = *self;
        let n = self.attempts.len();
        let mut i: usize = 0;
        while i < n
            invariant
                i <= n,
                n == self.attempts@.len(),
                prior == *old(self),
                prior.wf(),
                self.sponsors == prior.sponsors,
                self.users == prior.users,
                self.winners == prior.winners,
                self.next_sponsor_id == prior.next_sponsor_id,
                self.next_winner_id == prior.next_winner_id,
                self.next_attempt_id == prior.next_attempt_id,
                self.attempts@.len() == prior.attempts@.len(),
                forall|k: int|
                    0 <= k < i ==> self.attempts@[k] == (
                    if prior.attempts@[k].phone_number@ == caller_phone_number@
                        && prior.attempts@[k].call_sid@ == call_sid@ {
                        Attempt { winner_url: winner_url, ..prior.attempts@[k] }
                    } else {
                        prior.attempts@[k]
                    }),
                forall|k: int| i <= k < n ==> self.attempts@[k] == prior.attempts@[k],
            decreases n - i,
        {
            if str_eq(self.attempts[i].phone_number.as_str(), caller_phone_number) && str_eq(
                self.attempts[i].call_sid.as_str(),
                call_sid,
            ) {
                let row = &self.attempts[i];
                let updated = Attempt { winner_url: winner_url.clone(), ..row.clone() };
                self.attempts[i] = updated;
            }
            i += 1;
        }
    }

    /// Writes the posted announcement's address onto this call's attempt row.
    pub fn update_attempt_twitter_url(&mut self, twitter_url: String, call_sid: &str)
        requires
            old(self).wf(),
        ensures
            final(self).wf(),
            final(self).sponsors == old(self).sponsors,
            final(self).users == old(self).users,
            final(self).winners == old(self).winners,
            final(self).next_sponsor_id == old(self).next_sponsor_id,
            final(self).next_winner_id == old(self).next_winner_id,
            final(self).next_attempt_id == old(self).next_attempt_id,
            final(self).attempts@.len() == old(self).attempts@.len(),
            forall|k: int|
                0 <= k < old(self).attempts@.len() ==> final(self).attempts@[k] == (
                if old(self).attempts@[k].call_sid@ == call_sid@ {
                    Attempt { twitter_url: Some(twitter_url), ..old(self).attempts@[k] }
                } else {
                    old(self).attempts@[k]
                }),
    {
        let ghost prior = *self;
        let n = self.attempts.len();
        let mut i: usize = 0;
        while i < n
            invariant
                i <= n,
                n == self.attempts@.len(),
                prior == *old(self),
                prior.wf(),
                self.sponsors == prior.sponsors,
                self.users == prior.users,
                self.winners == prior.winners,
                self.next_sponsor_id == prior.next_sponsor_id,
                self.next_winner_id == prior.next_winner_id,
                self.next_attempt_id == prior.next_attempt_id,
                self.attempts@.len() == prior.attempts@.len(),
                forall|k: int|
                    0 <= k < i ==> self.attempts@[k] == (
                    if prior.attempts@[k].call_sid@ == call_sid@ {
                        Attempt { twitter_url: Some(twitter_url), ..prior.attempts@[k] }
                    } else {
                        prior.attempts@[k]
                    }),
                forall|k: int| i <= k < n ==> self.attempts@[k] == prior.attempts@[k],
            decreases n - i,
        {
            if str_eq(self.attempts[i].call_sid.as_str(), call_sid) {
                let row = &self.attempts[i];
                let updated = Attempt { twitter_url: Some(twitter_url.clone()), ..row.clone() };
                self.attempts[i] = updated;
            }
            i += 1;
        }
    }

    /// Writes the judge's explanation onto this call's attempt row.
    pub fn update_attempt_judgement(&mut self, call_sid: &str, judgement: String)
        requires
            old(self).wf(),
        ensures
            final(self).wf(),
            final(self).sponsors == old(self).sponsors,
            final(self).users == old(self).users,
            final(self).winners == old(self).winners,
            final(self).next_sponsor_id == old(self).next_sponsor_id,
            final(self).next_winner_id == old(self).next_winner_id,
            final(self).next_attempt_id == old(self).next_attempt_id,
            final(self).attempts@.len() == old(self).attempts@.len(),
            forall|k: int|
                0 <= k < old(self).attempts@.len() ==> final(self).attempts@[k] == (
                if old(self).attempts@[k].call_sid@ == call_sid@ {
                    Attempt { challenge_status: Some(judgement), ..old(self).attempts@[k] }
                } else {
                    old(self).attempts@[k]
                }),
    {
        let ghost prior = *self;
        let n = self.attempts.len();
        let mut i: usize = 0;
        while i < n
            invariant
                i <= n,
                n == self.attempts@.len(),
                prior == *old(self),
                prior.wf(),
                self.sponsors == prior.sponsors,
                self.users == prior.users,
                self.winners == prior.winners,
                self.next_sponsor_id == prior.next_sponsor_id,
                self.next_winner_id == prior.next_winner_id,
                self.next_attempt_id == prior.next_attempt_id,
                self.attempts@.len() == prior.attempts@.len(),
                forall|k: int|
                    0 <= k < i ==> self.attempts@[k] == (
                    if prior.attempts@[k].call_sid@ == call_sid@ {
                        Attempt { challenge_status: Some(judgement), ..prior.attempts@[k] }
                    } else {
                        prior.attempts@[k]
                    }),
                forall|k: int| i <= k < n ==> self.attempts@[k] == prior.attempts@[k],
            decreases n - i,
        {
            if str_eq(self.attempts[i].call_sid.as_str(), call_sid) {
                let row = &self.attempts[i];
                let updated = Attempt { challenge_status: Some(judgement.clone()), ..row.clone() };
                self.attempts[i] = updated;
            }
            i += 1;
        }
    }
}

/// The configurable sponsor fields after an update request is applied.
pub open spec fn spec_update_sponsor(s: Sponsor, update: UpdateSponsorArgs) -> Sponsor {
    Sponsor {
        name: update.name,
        active: update.active,
        background_url: update.background_url,
        challenge_time: update.challenge_time,
        system_instruction: update.system_instruction,
        start_text: update.start_text,
        rating_threshold: update.rating_threshold,
        challenge_text: update.challenge_text,
        ..s
    }
}

/// Every element of a filtered sequence comes from the sequence itself.
pub proof fn lemma_filter_element_is_member<A>(s: Seq<A>, pred: spec_fn(A) -> bool, i: int)
    requires
        0 <= i < s.filter(pred).len(),
    ensures
        s.contains(s.filter(pred)[i]),
    decreases s.len(),
{
    reveal(Seq::filter);
    if s.len() > 0 {
        let out = s.filter(pred);
        if pred(s.last()) && i == out.len() - 1 {
            assert(out[i] == s.last());
            assert(s[s.len() - 1] == s.last());
        } else {
            lemma_filter_element_is_member(s.drop_last(), pred, i);
            let w = choose|k: int| 0 <= k < s.drop_last().len() && s.drop_last()[k] == out[i];
            assert(s[w] == out[i]);
        }
    }
}

/// One available-balance slice pays at most one winner: when the balance
/// exactly covers one reward, the first debit succeeds and empties it, and a
/// second debit of the same row is refused.
pub proof fn lemma_debit_excludes_second(s: Sponsor)
    requires
        s.wf(),
        s.reward_tokens > 0,
        s.available_tokens == s.reward_tokens,
    ensures
        spec_debit_allowed(s),
        spec_debit(s).available_tokens == 0,
        !spec_debit_allowed(spec_debit(s)),
{
}

/// Debits serialize: for any balance, two consecutive debits succeed only if
/// the balance covers two rewards; otherwise at most the first succeeds.
pub proof fn lemma_debit_serializes(s: Sponsor)
    requires
        s.wf(),
        s.reward_tokens > 0,
    ensures
        spec_debit_allowed(s) ==> spec_debit(s).available_tokens == s.available_tokens
            - s.reward_tokens,
        spec_debit_allowed(s) && spec_debit_allowed(spec_debit(s)) <==> s.available_tokens >= 2
            * s.reward_tokens,
{
}

} // verus!
