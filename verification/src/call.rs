//! The telephony events the webhooks deliver, decoded from authenticated
//! form parameters: the live call with its speech result, and the recording
//! notification.

use crate::text::str_eq;
use vstd::prelude::*;

verus! {

/// Why a webhook request or a call-control operation was refused.
#[derive(Debug, Clone)]
pub enum TwilioError {
    /// The provider's endpoint answered with this status code.
    HTTPError(u16),
    /// A required parameter was missing or malformed.
    ParsingError,
    /// The request's signature did not match.
    AuthError,
    /// The request itself was malformed.
    BadRequest,
    /// The transport failed; the text describes how.
    RequestError(String),
}

/// The stages a provider-side call passes through.
#[derive(Debug, Clone, Copy, PartialEq, Eq, Structural)]
pub enum CallStatus {
    Queued,
    Ringing,
    InProgress,
    Canceled,
    Completed,
    Failed,
    Busy,
    NoAnswer,
}

/// The status named by the given parameter text, if it names one.
pub open spec fn spec_call_status(s: Seq<char>) -> Option<CallStatus> {
    if s == "queued"@ {
        Some(CallStatus::Queued)
    } else if s == "ringing"@ {
        Some(CallStatus::Ringing)
    } else if s == "in-progress"@ {
        Some(CallStatus::InProgress)
    } else if s == "canceled"@ {
        Some(CallStatus::Canceled)
    } else if s == "completed"@ {
        Some(CallStatus::Completed)
    } else if s == "failed"@ {
        Some(CallStatus::Failed)
    } else if s == "busy"@ {
        Some(CallStatus::Busy)
    } else if s == "no-answer"@ {
        Some(CallStatus::NoAnswer)
    } else {
        None
    }
}

/// The first value stored under `key`, if any.
pub open spec fn spec_lookup(m: Seq<(String, String)>, key: Seq<char>) -> Option<Seq<char>>
    decreases m.len(),
{
    if m.len() == 0 {
        None
    } else if m[0].0@ == key {
        Some(m[0].1@)
    } else {
        spec_lookup(m.skip(1), key)
    }
}

/// Finds the first parameter stored under `key`.
pub fn find_param<'a>(m: &'a Vec<(String, String)>, key: &str) -> (r: Option<&'a String>)
    ensures
        match r {
            Some(v) => spec_lookup(m@, key@) == Some(v@),
            None => spec_lookup(m@, key@) is None,
        },
{
    let n = m.len();
    let mut i: usize = 0;
    proof {
        assert(m@.skip(0) =~= m@);
    }
    while i < n
        invariant
            i <= n,
            n == m@.len(),
            spec_lookup(m@, key@) == spec_lookup(m@.skip(i as int), key@),
        decreases n - i,
    {
        let ghost rest = m@.skip(i as int);
        if str_eq(m[i].0.as_str(), key) {
            return Some(&m[i].1);
        }
        i += 1;
        proof {
            assert(rest.skip(1) =~= m@.skip(i as int));
        }
    }
    proof {
        assert(m@.skip(n as int) =~= Seq::<(String, String)>::empty());
    }
    None
}

/// A live call event: who calls whom, the call identifier, the provider-side
/// status, and the recognized speech when a gather completed.
///
/// The provider also reports a floating-point recognition confidence; the
/// call logic only ever logs it, so it stays with the surrounding program.
#[derive(Debug, Clone)]
pub struct Call {
    pub from: String,
    pub to: String,
    pub sid: String,
    pub status: CallStatus,
    pub speech_result: Option<String>,
}

impl Call {
    /// Decodes a call event from authenticated form parameters: the caller,
    /// callee, call identifier and a known status must all be present.
    pub fn from_map(m: &Vec<(String, String)>) -> (r: Result<Call, TwilioError>)
        ensures
            match r {
                Ok(c) => {
                    &&& spec_lookup(m@, "From"@) == Some(c.from@)
                    &&& spec_lookup(m@, "To"@) == Some(c.to@)
                    &&& spec_lookup(m@, "CallSid"@) == Some(c.sid@)
                    &&& (spec_lookup(m@, "CallStatus"@) matches Some(s) && spec_call_status(s)
                        == Some(c.status))
                    &&& match c.speech_result {
                        Some(t) => spec_lookup(m@, "SpeechResult"@) == Some(t@),
                        None => spec_lookup(m@, "SpeechResult"@) is None,
                    }
                },
                Err(e) => {
                    &&& e is ParsingError
                    &&& {
                        ||| spec_lookup(m@, "From"@) is None
                        ||| spec_lookup(m@, "To"@) is None
                        ||| spec_lookup(m@, "CallSid"@) is None
                        ||| (match spec_lookup(m@, "CallStatus"@) {
                            Some(s) => spec_call_status(s) is None,
                            None => true,
                        })
                    }
                },
            },
    {
        let from = match find_param(m, "From") {
            Some(v) => v.clone(),
            None => {
                return Err(TwilioError::ParsingError);
            },
        };
        let to = match find_param(m, "To") {
            Some(v) => v.clone(),
            None => {
                return Err(TwilioError::ParsingError);
            },
        };
        let sid = match find_param(m, "CallSid") {
            Some(v) => v.clone(),
            None => {
                return Err(TwilioError::ParsingError);
            },
        };
        let status_text = match find_param(m, "CallStatus") {
            Some(v) => v,
            None => {
                return Err(TwilioError::ParsingError);
            },
        };
        let status = if str_eq(status_text.as_str(), "queued") {
            CallStatus::Queued
        } else if str_eq(status_text.as_str(), "ringing") {
            CallStatus::Ringing
        } else if str_eq(status_text.as_str(), "in-progress") {
            CallStatus::InProgress
        } else if str_eq(status_text.as_str(), "canceled") {
            CallStatus::Canceled
        } else if str_eq(status_text.as_str(), "completed") {
            CallStatus::Completed
        } else if str_eq(status_text.as_str(), "failed") {
            CallStatus::Failed
        } else if str_eq(status_text.as_str(), "busy") {
            CallStatus::Busy
        } else if str_eq(status_text.as_str(), "no-answer") {
            CallStatus::NoAnswer
        } else {
            return Err(TwilioError::ParsingError);
        };
        let speech_result = match find_param(m, "SpeechResult") {
            Some(v) => Some(v.clone()),
            None => None,
        };
        Ok(Call { from, to, sid, status, speech_result })
    }
}

/// A recording notification: which call it belongs to and the recording's
/// own identifier.
#[derive(Debug, Clone)]
pub struct Recording {
    pub call_sid: String,
    pub sid: String,
}

impl Recording {
    /// Decodes a recording notification from authenticated form parameters.
    pub fn from_map(m: &Vec<(String, String)>) -> (r: Result<Recording, TwilioError>)
        ensures
            match r {
                Ok(rec) => {
                    &&& spec_lookup(m@, "CallSid"@) == Some(rec.call_sid@)
                    &&& spec_lookup(m@, "RecordingSid"@) == Some(rec.sid@)
                },
                Err(e) => {
                    &&& e is ParsingError
                    &&& (spec_lookup(m@, "CallSid"@) is None || spec_lookup(m@, "RecordingSid"@)
                        is None)
                },
            },
    {
        let call_sid = match find_param(m, "CallSid") {
            Some(v) => v.clone(),
            None => {
                return Err(TwilioError::ParsingError);
            },
        };
        let sid = match find_param(m, "RecordingSid") {
            Some(v) => v.clone(),
            None => {
                return Err(TwilioError::ParsingError);
            },
        };
        Ok(Recording { call_sid, sid })
    }
}

/// A request to place an outbound call: from, to, and the stage endpoint the
/// provider first asks for instructions.
#[derive(Debug, Clone)]
pub struct OutboundCall<'a> {
    pub from: &'a str,
    pub to: &'a str,
    pub url: &'a str,
}

impl<'a> OutboundCall<'a> {
    /// Bundles the three addresses of an outbound call.
    pub fn new(from: &'a str, to: &'a str, url: &'a str) -> (r: OutboundCall<'a>)
        ensures
            r.from@ == from@,
            r.to@ == to@,
            r.url@ == url@,
    {
        OutboundCall { from, to, url }
    }
}

} // verus!
