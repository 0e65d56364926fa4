//! The per-call session: the sponsor snapshot, the caller's name, and the
//! transcript with one timespan per message, plus the store that maps a live
//! call identifier to its session.
//!
//! All clock readings are handed in as milliseconds; the callers obtain them
//! from a monotonic clock, which the `now`-parameter preconditions reflect.

use crate::records::Sponsor;
use crate::text::str_eq;
use vstd::prelude::*;

verus! {

/// The start and end of one transcript entry, in milliseconds.
#[derive(Debug, Clone, Copy, PartialEq, Eq, Structural)]
pub struct Timespan {
    pub start: u64,
    pub end: u64,
}

/// One entry of the conversation, by role. Only user and host entries are
/// audible; system entries instruct the model and never reach the caller.
#[derive(Debug)]
pub enum ChatMessage {
    System(String),
    User(String),
    Assistant(String),
}

impl Clone for ChatMessage {
    fn clone(&self) -> (r: ChatMessage)
        ensures
            r == *self,
    {
        match self {
            ChatMessage::System(t) => ChatMessage::System(t.clone()),
            ChatMessage::User(t) => ChatMessage::User(t.clone()),
            ChatMessage::Assistant(t) => ChatMessage::Assistant(t.clone()),
        }
    }
}

impl ChatMessage {
    /// Whether the entry is part of the audible conversation.
    pub open spec fn is_audible(self) -> bool {
        self is User || self is Assistant
    }

    /// The text carried by the entry.
    pub open spec fn spec_content(self) -> Seq<char> {
        match self {
            ChatMessage::System(t) => t@,
            ChatMessage::User(t) => t@,
            ChatMessage::Assistant(t) => t@,
        }
    }
}

/// An audible message paired with its timespan.
#[derive(Debug)]
pub struct CachedMessage {
    pub message: String,
    pub timespan: Timespan,
}

impl Clone for CachedMessage {
    fn clone(&self) -> (r: CachedMessage)
        ensures
            r == *self,
    {
        CachedMessage { message: self.message.clone(), timespan: self.timespan }
    }
}

/// A timeline is well formed when every entry ends no earlier than it starts,
/// no entry starts before the session itself, and consecutive entries never
/// overlap.
pub open spec fn spans_wf(session_start: u64, spans: Seq<Timespan>) -> bool {
    &&& forall|i: int| 0 <= i < spans.len() ==> (#[trigger] spans[i]).start <= spans[i].end
    &&& forall|i: int| 0 <= i < spans.len() ==> session_start <= (#[trigger] spans[i]).start
    &&& forall|i: int|
        0 <= i < spans.len() - 1 ==> (#[trigger] spans[i]).end <= spans[i + 1].start
}

/// The latest instant the timeline has seen: the last entry's end, or the
/// session start while the timeline is empty.
pub open spec fn last_time(session_start: u64, spans: Seq<Timespan>) -> u64 {
    if spans.len() == 0 {
        session_start
    } else {
        spans.last().end
    }
}

/// The timeline after a system entry is stamped at `now`.
pub open spec fn spec_add_system(spans: Seq<Timespan>, now: u64) -> Seq<Timespan> {
    spans.push(Timespan { start: now, end: now })
}

/// The timeline after a user entry: it starts where the previous entry ended
/// (or at `now` when there is none) and ends at `now`.
pub open spec fn spec_add_user(spans: Seq<Timespan>, now: u64) -> Seq<Timespan> {
    spans.push(
        Timespan {
            start: if spans.len() == 0 {
                now
            } else {
                spans.last().end
            },
            end: now,
        },
    )
}

/// The timeline after the most recent entry is closed at `now`.
pub open spec fn spec_close_last(spans: Seq<Timespan>, now: u64) -> Seq<Timespan> {
    if spans.len() == 0 {
        spans
    } else {
        spans.update(spans.len() - 1, Timespan { start: spans.last().start, end: now })
    }
}

/// The audible entries of a conversation paired with their timespans, in
/// order; system entries are skipped.
pub open spec fn spec_collected(msgs: Seq<ChatMessage>, spans: Seq<Timespan>) -> Seq<
    (Seq<char>, Timespan),
>
    decreases msgs.len(),
{
    if msgs.len() == 0 || spans.len() == 0 {
        Seq::empty()
    } else if msgs[0].is_audible() {
        seq![(msgs[0].spec_content(), spans[0])] + spec_collected(msgs.skip(1), spans.skip(1))
    } else {
        spec_collected(msgs.skip(1), spans.skip(1))
    }
}

/// The live state of one call: the sponsor snapshot, the caller's name once
/// extracted, and the transcript with its timeline.
#[derive(Debug)]
pub struct CachedCall {
    pub name: String,
    pub sponsor: Sponsor,
    pub start: u64,
    pub messages: Vec<ChatMessage>,
    pub timestamps: Vec<Timespan>,
}

impl Clone for CachedCall {
    fn clone(&self) -> (r: CachedCall)
        ensures
            r.name == self.name,
            r.sponsor == self.sponsor,
            r.start == self.start,
            r.messages@ == self.messages@,
            r.timestamps@ == self.timestamps@,
    {
        let messages = self.messages.clone();
        let timestamps = self.timestamps.clone();
        proof {
            assert forall|i: int| 0 <= i < self.messages@.len() implies messages@[i]
                == self.messages@[i] by {
                assert(cloned::<ChatMessage>(self.messages[i], messages[i]));
            }
            assert(messages@ =~= self.messages@);
            assert forall|i: int| 0 <= i < self.timestamps@.len() implies timestamps@[i]
                == self.timestamps@[i] by {
                assert(cloned::<Timespan>(self.timestamps[i], timestamps[i]));
            }
            assert(timestamps@ =~= self.timestamps@);
        }
        CachedCall {
            name: self.name.clone(),
            sponsor: self.sponsor.clone(),
            start: self.start,
            messages,
            timestamps,
        }
    }
}

impl CachedCall {
    /// Messages and timespans stay index-aligned and the timeline stays well
    /// formed.
    pub open spec fn wf(self) -> bool {
        &&& self.messages@.len() == self.timestamps@.len()
        &&& spans_wf(self.start, self.timestamps@)
    }

    /// The latest instant this session's timeline has seen.
    pub open spec fn latest(self) -> u64 {
        last_time(self.start, self.timestamps@)
    }

    /// A fresh session for the given sponsor, anchored at `now`.
    pub fn new(sponsor: Sponsor, now: u64) -> (r: CachedCall)
        ensures
            r.wf(),
            r.sponsor == sponsor,
            r.name@ == Seq::<char>::empty(),
            r.start == now,
            r.messages@ == Seq::<ChatMessage>::empty(),
            r.timestamps@ == Seq::<Timespan>::empty(),
    {
        CachedCall {
            sponsor,
            name: String::new(),
            start: now,
            messages: Vec::new(),
            timestamps: Vec::new(),
        }
    }

    /// Appends an instructional or host-spoken entry, stamping both its start
    /// and end to `now`. For an accurate timeline, `end_last_message` is
    /// expected to have closed the previous entry first.
    pub fn add_system_message(&mut self, message: ChatMessage, now: u64)
        requires
            old(self).wf(),
            old(self).latest() <= now,
        ensures
            final(self).wf(),
            final(self).messages@ == old(self).messages@.push(message),
            final(self).timestamps@ == spec_add_system(old(self).timestamps@, now),
            final(self).latest() == now,
            final(self).name == old(self).name,
            final(self).sponsor == old(self).sponsor,
            final(self).start == old(self).start,
    {
        self.messages.push(message);
        self.timestamps.push(Timespan { start: now, end: now });
    }

    /// Appends a caller entry: it starts where the previous entry ended (or
    /// at `now` when the transcript is empty) and ends at `now`.
    pub fn add_user_message(&mut self, message: ChatMessage, now: u64)
        requires
            old(self).wf(),
            old(self).latest() <= now,
        ensures
            final(self).wf(),
            final(self).messages@ == old(self).messages@.push(message),
            final(self).timestamps@ == spec_add_user(old(self).timestamps@, now),
            final(self).latest() == now,
            final(self).name == old(self).name,
            final(self).sponsor == old(self).sponsor,
            final(self).start == old(self).start,
    {
        let n = self.timestamps.len();
        let start: u64 = if n == 0 {
            now
        } else {
            self.timestamps[n - 1].end
        };
        self.messages.push(message);
        self.timestamps.push(Timespan { start, end: now });
    }

    /// Closes the most recent entry at `now`; a no-op on an empty transcript.
    /// This runs when the provider signals that the previous host speech has
    /// finished playing, right before the next entry is opened.
    pub fn end_last_message(&mut self, now: u64)
        requires
            old(self).wf(),
            old(self).latest() <= now,
        ensures
            final(self).wf(),
            final(self).messages == old(self).messages,
            final(self).timestamps@ == spec_close_last(old(self).timestamps@, now),
            final(self).latest() == now || old(self).timestamps@.len() == 0,
            final(self).name == old(self).name,
            final(self).sponsor == old(self).sponsor,
            final(self).start == old(self).start,
    {
        let n = self.timestamps.len();
        if n > 0 {
            let prev = self.timestamps[n - 1];
            self.timestamps[n - 1] = Timespan { start: prev.start, end: now };
            assert(self.timestamps@ =~= spec_close_last(old(self).timestamps@, now));
        } else {
            assert(self.timestamps@ =~= spec_close_last(old(self).timestamps@, now));
        }
    }

    /// Collects the audible conversation with its timespans, in order.
    pub fn get_cached_messages(&self) -> (r: Vec<CachedMessage>)
        requires
            self.wf(),
        ensures
            r@.map_values(|cm: CachedMessage| (cm.message@, cm.timespan)) == spec_collected(
                self.messages@,
                self.timestamps@,
            ),
    {
        let ghost f = |cm: CachedMessage| (cm.message@, cm.timespan);
        let mut out: Vec<CachedMessage> = Vec::new();
        let n = self.messages.len();
        let mut i: usize = 0;
        proof {
            assert(self.messages@.skip(0) =~= self.messages@);
            assert(self.timestamps@.skip(0) =~= self.timestamps@);
            assert(out@.map_values(f) =~= Seq::<(Seq<char>, Timespan)>::empty());
        }
        while i < n
            invariant
                i <= n,
                n == self.messages@.len(),
                n == self.timestamps@.len(),
                f == (|cm: CachedMessage| (cm.message@, cm.timespan)),
                spec_collected(self.messages@, self.timestamps@) == out@.map_values(f)
                    + spec_collected(
                    self.messages@.skip(i as int),
                    self.timestamps@.skip(i as int),
                ),
            decreases n - i,
        {
            let ghost rest_m = self.messages@.skip(i as int);
            let ghost rest_t = self.timestamps@.skip(i as int);
            let ghost prev = out@;
            let entry = extract_message_content(&self.messages[i]);
            match entry {
                Some(content) => {
                    let added = CachedMessage { message: content, timespan: self.timestamps[i] };
                    out.push(added);
                    proof {
                        assert(out@.map_values(f) =~= prev.map_values(f) + seq![
                            (added.message@, added.timespan),
                        ]);
                        assert(rest_m[0] == self.messages@[i as int]);
                        assert(spec_collected(rest_m, rest_t) == seq![
                            (rest_m[0].spec_content(), rest_t[0]),
                        ] + spec_collected(rest_m.skip(1), rest_t.skip(1)));
                        assert(out@.map_values(f) + spec_collected(
                            rest_m.skip(1),
                            rest_t.skip(1),
                        ) =~= prev.map_values(f) + spec_collected(rest_m, rest_t));
                    }
                },
                None => {
                    proof {
                        assert(spec_collected(rest_m, rest_t) == spec_collected(
                            rest_m.skip(1),
                            rest_t.skip(1),
                        ));
                    }
                },
            }
            i += 1;
            proof {
                assert(rest_m.skip(1) =~= self.messages@.skip(i as int));
                assert(rest_t.skip(1) =~= self.timestamps@.skip(i as int));
            }
        }
        proof {
            assert(self.messages@.skip(n as int) =~= Seq::<ChatMessage>::empty());
        }
        out
    }
}

/// The audible text of an entry: the content of a user or host entry, and
/// nothing for a system entry.
pub fn extract_message_content(message: &ChatMessage) -> (r: Option<String>)
    ensures
        match r {
            Some(t) => message.is_audible() && t@ == message.spec_content(),
            None => !message.is_audible(),
        },
{
    match message {
        ChatMessage::User(text) => Some(text.clone()),
        ChatMessage::Assistant(text) => Some(text.clone()),
        ChatMessage::System(_) => None,
    }
}

/// Closing the last entry and then opening a caller entry makes the two
/// entries meet exactly: the closed end is the next start, and the timeline
/// stays well formed. Together with `spans_wf` this is the contiguity
/// guarantee the downstream subtitle alignment relies on.
pub proof fn lemma_close_then_user_contiguous(
    session_start: u64,
    spans: Seq<Timespan>,
    close_at: u64,
    speak_at: u64,
)
    requires
        spans_wf(session_start, spans),
        spans.len() > 0,
        last_time(session_start, spans) <= close_at,
        close_at <= speak_at,
    ensures
        ({
            let appended = spec_add_user(spec_close_last(spans, close_at), speak_at);
            &&& spans_wf(session_start, appended)
            &&& appended[appended.len() - 2].end == appended[appended.len() - 1].start
        }),
{
    let closed = spec_close_last(spans, close_at);
    assert(spans_wf(session_start, closed));
    let appended = spec_add_user(closed, speak_at);
    assert(appended[appended.len() - 2] == closed.last());
}

/// In a well-formed timeline no two entries overlap: every earlier entry ends
/// no later than any later entry starts.
pub proof fn lemma_timeline_nonoverlapping(
    session_start: u64,
    spans: Seq<Timespan>,
    i: int,
    j: int,
)
    requires
        spans_wf(session_start, spans),
        0 <= i < j < spans.len(),
    ensures
        spans[i].end <= spans[j].start,
    decreases j - i,
{
    if j == i + 1 {
    } else {
        lemma_timeline_nonoverlapping(session_start, spans, i, j - 1);
    }
}

/// The concurrency-safe map from a live call identifier to its session.
///
/// The surrounding program holds it under a short-lived exclusive lock that is
/// released before any network round-trip; each operation here is one such
/// critical section. Removal at judgment entry is what makes a second
/// judgment pass for the same call impossible.
pub struct SessionStore {
    sids: Vec<String>,
    calls: Vec<CachedCall>,
}

impl SessionStore {
    /// Keys and sessions stay aligned and no call identifier occurs twice.
    pub closed spec fn wf(self) -> bool {
        &&& self.sids@.len() == self.calls@.len()
        &&& forall|i: int, j: int|
            0 <= i < j < self.sids@.len() ==> (#[trigger] self.sids@[i])@ != (
            #[trigger] self.sids@[j])@
    }

    /// Whether some slot holds the given call identifier.
    closed spec fn has_sid(self, sid: Seq<char>) -> bool {
        exists|i: int| 0 <= i < self.sids@.len() && (#[trigger] self.sids@[i])@ == sid
    }

    /// The slot holding the given call identifier.
    closed spec fn sid_slot(self, sid: Seq<char>) -> int {
        choose|i: int| 0 <= i < self.sids@.len() && (#[trigger] self.sids@[i])@ == sid
    }

    /// The store seen as a map from call identifier to session.
    pub closed spec fn view(self) -> Map<Seq<char>, CachedCall> {
        Map::new(
            |sid: Seq<char>| self.has_sid(sid),
            |sid: Seq<char>| self.calls@[self.sid_slot(sid)],
        )
    }

    /// An empty store.
    pub fn new() -> (r: SessionStore)
        ensures
            r.wf(),
            r@ == Map::<Seq<char>, CachedCall>::empty(),
    {
        let r = SessionStore { sids: Vec::new(), calls: Vec::new() };
        proof {
            assert(r@ =~= Map::<Seq<char>, CachedCall>::empty());
        }
        r
    }

    /// The slot holding `call_sid`, if any.
    fn find(&self, call_sid: &str) -> (r: Option<usize>)
        requires
            self.wf(),
        ensures
            match r {
                Some(i) => i < self.sids@.len() && self.sids@[i as int]@ == call_sid@
                    && self@.contains_key(call_sid@) && self.sid_slot(call_sid@) == i as int,
                None => !self@.contains_key(call_sid@),
            },
    {
        let n = self.sids.len();
        let mut i: usize = 0;
        while i < n
            invariant
                i <= n,
                n == self.sids@.len(),
                self.wf(),
                forall|k: int| 0 <= k < i ==> (#[trigger] self.sids@[k])@ != call_sid@,
            decreases n - i,
        {
            if str_eq(self.sids[i].as_str(), call_sid) {
                proof {
                    assert(self.has_sid(call_sid@));
                    let w = self.sid_slot(call_sid@);
                    assert(self.sids@[w]@ == call_sid@);
                    assert(w == i as int);
                }
                return Some(i);
            }
            i += 1;
        }
        None
    }

    /// Looks up the live session for a call, without disturbing it.
    pub fn get(&self, call_sid: &str) -> (r: Option<&CachedCall>)
        requires
            self.wf(),
        ensures
            match r {
                Some(call) => self@.contains_key(call_sid@) && *call == self@[call_sid@],
                None => !self@.contains_key(call_sid@),
            },
    {
        match self.find(call_sid) {
            Some(i) => Some(&self.calls[i]),
            None => None,
        }
    }

    /// Stores the session for a call, replacing any previous one.
    pub fn insert(&mut self, call_sid: String, call: CachedCall)
        requires
            old(self).wf(),
        ensures
            final(self).wf(),
            final(self)@ == old(self)@.insert(call_sid@, call),
    {
        let ghost prior = *self;
        match self.find(call_sid.as_str()) {
            Some(i) => {
                self.calls[i] = call;
                proof {
                    assert(self.sids@ == prior.sids@);
                    assert forall|sid: Seq<char>| #[trigger] self.has_sid(sid) implies prior.has_sid(
                        sid,
                    ) by {
                        let w = choose|k: int|
                            0 <= k < self.sids@.len() && (#[trigger] self.sids@[k])@ == sid;
                        assert(prior.sids@[w]@ == sid);
                    }
                    assert forall|sid: Seq<char>| #[trigger] prior.has_sid(sid) implies self.has_sid(
                        sid,
                    ) by {
                        let w = choose|k: int|
                            0 <= k < prior.sids@.len() && (#[trigger] prior.sids@[k])@ == sid;
                        assert(self.sids@[w]@ == sid);
                    }
                    assert forall|sid: Seq<char>|
                        self.has_sid(sid) && sid != call_sid@ implies self.calls@[self.sid_slot(
                        sid,
                    )] == prior.calls@[prior.sid_slot(sid)] by {
                        let w1 = self.sid_slot(sid);
                        let w2 = prior.sid_slot(sid);
                        assert(self.sids@[w1]@ == sid);
                        assert(prior.sids@[w2]@ == sid);
                        assert(w1 == w2);
                        assert(w1 != i as int);
                    }
                    assert(self.sid_slot(call_sid@) == i as int);
                    assert(self@ =~= prior@.insert(call_sid@, call));
                }
            },
            None => {
                self.sids.push(call_sid);
                self.calls.push(call);
                proof {
                    let n = prior.sids@.len() as int;
                    assert(self.sids@[n]@ == call_sid@);
                    assert forall|sid: Seq<char>|
                        #[trigger] self.has_sid(sid) && sid != call_sid@ implies prior.has_sid(
                        sid,
                    ) by {
                        let w = choose|k: int|
                            0 <= k < self.sids@.len() && (#[trigger] self.sids@[k])@ == sid;
                        assert(w != n);
                        assert(prior.sids@[w]@ == sid);
                    }
                    assert forall|sid: Seq<char>| #[trigger] prior.has_sid(sid) implies self.has_sid(
                        sid,
                    ) by {
                        let w = choose|k: int|
                            0 <= k < prior.sids@.len() && (#[trigger] prior.sids@[k])@ == sid;
                        assert(self.sids@[w]@ == sid);
                    }
                    assert forall|sid: Seq<char>|
                        self.has_sid(sid) && sid != call_sid@ implies self.calls@[self.sid_slot(
                        sid,
                    )] == prior.calls@[prior.sid_slot(sid)] by {
                        let w1 = self.sid_slot(sid);
                        let w2 = prior.sid_slot(sid);
                        assert(self.sids@[w1]@ == sid);
                        assert(prior.sids@[w2]@ == sid);
                        assert(w1 != n);
                        assert(w1 == w2);
                    }
                    assert(self.sid_slot(call_sid@) == n);
                    assert(self@ =~= prior@.insert(call_sid@, call));
                }
            },
        }
    }

    /// Takes the session for a call out of the store. At judgment entry this
    /// is the single linearization point: the first removal hands the session
    /// to the detached judgment task, any later attempt finds nothing.
    pub fn remove(&mut self, call_sid: &str) -> (r: Option<CachedCall>)
        requires
            old(self).wf(),
        ensures
            final(self).wf(),
            final(self)@ == old(self)@.remove(call_sid@),
            match r {
                Some(call) => old(self)@.contains_key(call_sid@) && call == old(self)@[call_sid@],
                None => !old(self)@.contains_key(call_sid@),
            },
    {
        let ghost prior = *self;
        match self.find(call_sid) {
            Some(i) => {
                self.sids.remove(i);
                let call = self.calls.remove(i);
                proof {
                    assert forall|sid: Seq<char>| #[trigger] self.has_sid(sid) implies prior.has_sid(
                        sid,
                    ) && sid != call_sid@ by {
                        let w = choose|k: int|
                            0 <= k < self.sids@.len() && (#[trigger] self.sids@[k])@ == sid;
                        if w < i {
                            assert(prior.sids@[w]@ == sid);
                        } else {
                            assert(prior.sids@[w + 1]@ == sid);
                        }
                    }
                    assert forall|sid: Seq<char>|
                        #[trigger] prior.has_sid(sid) && sid != call_sid@ implies self.has_sid(
                        sid,
                    ) by {
                        let w = choose|k: int|
                            0 <= k < prior.sids@.len() && (#[trigger] prior.sids@[k])@ == sid;
                        assert(w != i as int);
                        if w < i {
                            assert(self.sids@[w]@ == sid);
                        } else {
                            assert(self.sids@[w - 1]@ == sid);
                        }
                    }
                    assert forall|sid: Seq<char>| #[trigger] self.has_sid(sid) implies self.calls@[self.sid_slot(
                        sid,
                    )] == prior.calls@[prior.sid_slot(sid)] by {
                        let w1 = self.sid_slot(sid);
                        let w2 = prior.sid_slot(sid);
                        assert(self.sids@[w1]@ == sid);
                        assert(prior.sids@[w2]@ == sid);
                        if w1 < i {
                            assert(prior.sids@[w1]@ == sid);
                            assert(w1 == w2);
                        } else {
                            assert(prior.sids@[w1 + 1]@ == sid);
                            assert(w1 + 1 == w2);
                        }
                    }
                    assert(self@ =~= prior@.remove(call_sid@));
                }
                Some(call)
            },
            None => {
                proof {
                    assert(self@ =~= prior@.remove(call_sid@));
                }
                None
            },
        }
    }
}

/// Removal is safe against replays: once a call's session has been removed, a
/// second removal for the same call finds nothing, so no second judgment pass
/// can ever hold a live session.
pub proof fn lemma_remove_is_at_most_once(store: Map<Seq<char>, CachedCall>, sid: Seq<char>)
    ensures
        !store.remove(sid).contains_key(sid),
{
}

} // verus!
