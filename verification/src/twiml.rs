//! Verified generation of the call-control markup returned to the telephony
//! provider: speak a text, gather the next utterance, redirect the call, or
//! reject it. Every renderer's output is pinned down character by character.

use crate::text::{dec_digits, u64_to_string};
use vstd::prelude::*;

verus! {

/// The markup text of one element: `<tag k="v" ...>inner</tag>`.
pub open spec fn spec_xml(tag: Seq<char>, attrs: Seq<(Seq<char>, Seq<char>)>, inner: Seq<char>) -> Seq<char> {
    seq!['<'] + tag + spec_attrs(attrs) + seq!['>'] + inner + seq!['<', '/'] + tag + seq!['>']
}

/// The attribute part of an element: ` k="v"` for each pair, in order.
pub open spec fn spec_attrs(attrs: Seq<(Seq<char>, Seq<char>)>) -> Seq<char>
    decreases attrs.len(),
{
    if attrs.len() == 0 {
        Seq::empty()
    } else {
        seq![' '] + attrs[0].0 + seq!['=', '"'] + attrs[0].1 + seq!['"'] + spec_attrs(attrs.skip(1))
    }
}

/// Renders one markup element from its tag, attributes and inner text.
pub fn format_xml_string(tag: &str, attrs: &Vec<(&str, &str)>, inner: &str) -> (r: String)
    ensures
        r@ == spec_xml(tag@, attrs@.map_values(|p: (&str, &str)| (p.0@, p.1@)), inner@),
{
    let ghost view_of = |p: (&str, &str)| (p.0@, p.1@);
    let mut out = String::new();
    out.append("<");
    out.append(tag);
    let n = attrs.len();
    let mut i: usize = 0;
    proof {
        assert(attrs@.skip(0) =~= attrs@);
        assert(attrs@.map_values(view_of).skip(0) =~= attrs@.map_values(view_of));
        reveal_strlit("<");
        reveal_strlit(">");
        reveal_strlit("</");
        reveal_strlit(" ");
        reveal_strlit("=\"");
        reveal_strlit("\"");
        assert(out@ =~= seq!['<'] + tag@);
    }
    while i < n
        invariant
            i <= n,
            n == attrs@.len(),
            view_of == (|p: (&str, &str)| (p.0@, p.1@)),
            out@ + spec_attrs(attrs@.map_values(view_of).skip(i as int)) == seq!['<'] + tag@
                + spec_attrs(attrs@.map_values(view_of)),
        decreases n - i,
    {
        let ghost rest = attrs@.map_values(view_of).skip(i as int);
        out.append(" ");
        out.append(attrs[i].0);
        out.append("=\"");
        out.append(attrs[i].1);
        out.append("\"");
        i += 1;
        proof {
            reveal_strlit(" ");
            reveal_strlit("=\"");
            reveal_strlit("\"");
            assert(" "@ =~= seq![' ']);
            assert("=\""@ =~= seq!['=', '"']);
            assert("\""@ =~= seq!['"']);
            assert(rest[0] == (attrs@[i - 1].0@, attrs@[i - 1].1@));
            assert(rest.skip(1) =~= attrs@.map_values(view_of).skip(i as int));
        }
    }
    proof {
        assert(attrs@.map_values(view_of).skip(n as int) =~= Seq::<(Seq<char>, Seq<char>)>::empty());
    }
    out.append(">");
    out.append(inner);
    out.append("</");
    out.append(tag);
    out.append(">");
    proof {
        reveal_strlit(">");
        reveal_strlit("</");
        assert(">"@ =~= seq!['>']);
        assert("</"@ =~= seq!['<', '/']);
        assert(out@ =~= spec_xml(tag@, attrs@.map_values(view_of), inner@));
    }
    out
}

/// How a follow-up request is made.
#[derive(Debug, Clone, Copy, PartialEq, Eq, Structural)]
pub enum Method {
    Get,
    Post,
}

impl Method {
    /// The markup spelling of the method.
    pub open spec fn spec_name(self) -> Seq<char> {
        match self {
            Method::Get => "GET"@,
            Method::Post => "POST"@,
        }
    }
}

/// The voice the host speaks with.
#[derive(Debug, Clone)]
pub enum Voice {
    Man,
    Woman,
    Custom(String),
}

impl Voice {
    /// The markup spelling of the voice.
    pub open spec fn spec_name(self) -> Seq<char> {
        match self {
            Voice::Man => "man"@,
            Voice::Woman => "woman"@,
            Voice::Custom(s) => s@,
        }
    }
}

/// An element that can render itself as call-control markup.
pub trait Action {
    /// The markup this element renders to.
    spec fn spec_twiml(&self) -> Seq<char>;

    /// Renders the element.
    fn as_twiml(&self) -> (r: String)
        ensures
            r@ == self.spec_twiml(),
    ;
}

/// Speaks a text to the caller.
#[derive(Debug, Clone)]
pub struct Say {
    pub txt: String,
    pub voice: Voice,
    pub language: String,
}

impl Action for Say {
    open spec fn spec_twiml(&self) -> Seq<char> {
        spec_xml(
            "Say"@,
            seq![("voice"@, self.voice.spec_name()), ("language"@, self.language@)],
            self.txt@,
        )
    }

    fn as_twiml(&self) -> (r: String)
        ensures
            r@ == self.spec_twiml(),
    {
        let voice_str: &str = match &self.voice {
            Voice::Man => "man",
            Voice::Woman => "woman",
            Voice::Custom(s) => s.as_str(),
        };
        let mut attrs: Vec<(&str, &str)> = Vec::new();
        attrs.push(("voice", voice_str));
        attrs.push(("language", self.language.as_str()));
        let r = format_xml_string("Say", &attrs, self.txt.as_str());
        proof {
            assert(attrs@.map_values(|p: (&str, &str)| (p.0@, p.1@)) =~= seq![
                ("voice"@, self.voice.spec_name()),
                ("language"@, self.language@),
            ]);
        }
        r
    }
}

/// Plays a recording to the caller.
#[derive(Debug, Clone)]
pub struct Play {
    pub url: String,
}

impl Action for Play {
    open spec fn spec_twiml(&self) -> Seq<char> {
        spec_xml("Play"@, Seq::empty(), self.url@)
    }

    fn as_twiml(&self) -> (r: String)
        ensures
            r@ == self.spec_twiml(),
    {
        let attrs: Vec<(&str, &str)> = Vec::new();
        let r = format_xml_string("Play", &attrs, self.url.as_str());
        proof {
            assert(attrs@.map_values(|p: (&str, &str)| (p.0@, p.1@)) =~= Seq::<
                (Seq<char>, Seq<char>),
            >::empty());
        }
        r
    }
}

/// Sends the live call on to another stage endpoint.
#[derive(Debug, Clone)]
pub struct Redirect {
    pub method: Method,
    pub url: String,
}

impl Action for Redirect {
    open spec fn spec_twiml(&self) -> Seq<char> {
        spec_xml("Redirect"@, seq![("method"@, self.method.spec_name())], self.url@)
    }

    fn as_twiml(&self) -> (r: String)
        ensures
            r@ == self.spec_twiml(),
    {
        let method_str: &str = match self.method {
            Method::Get => "GET",
            Method::Post => "POST",
        };
        let mut attrs: Vec<(&str, &str)> = Vec::new();
        attrs.push(("method", method_str));
        let r = format_xml_string("Redirect", &attrs, self.url.as_str());
        proof {
            assert(attrs@.map_values(|p: (&str, &str)| (p.0@, p.1@)) =~= seq![
                ("method"@, self.method.spec_name()),
            ]);
        }
        r
    }
}

/// Why a call is turned away.
#[derive(Debug, Clone, Copy, PartialEq, Eq, Structural)]
pub enum RejectReason {
    Rejected,
    Busy,
}

impl RejectReason {
    /// The markup spelling of the reason.
    pub open spec fn spec_name(self) -> Seq<char> {
        match self {
            RejectReason::Rejected => "rejected"@,
            RejectReason::Busy => "busy"@,
        }
    }
}

impl Default for RejectReason {
    fn default() -> (r: RejectReason)
        ensures
            r == RejectReason::Rejected,
    {
        RejectReason::Rejected
    }
}

/// Turns the call away without answering it.
#[derive(Debug, Clone)]
pub struct Reject {
    pub reason: RejectReason,
}

impl Default for Reject {
    fn default() -> (r: Reject)
        ensures
            r.reason == RejectReason::Rejected,
    {
        Reject { reason: RejectReason::Rejected }
    }
}

impl Action for Reject {
    open spec fn spec_twiml(&self) -> Seq<char> {
        spec_xml("Reject"@, seq![("reason"@, self.reason.spec_name())], Seq::empty())
    }

    fn as_twiml(&self) -> (r: String)
        ensures
            r@ == self.spec_twiml(),
    {
        let reason_str: &str = match self.reason {
            RejectReason::Rejected => "rejected",
            RejectReason::Busy => "busy",
        };
        let mut attrs: Vec<(&str, &str)> = Vec::new();
        attrs.push(("reason", reason_str));
        let r = format_xml_string("Reject", &attrs, "");
        proof {
            assert(attrs@.map_values(|p: (&str, &str)| (p.0@, p.1@)) =~= seq![
                ("reason"@, self.reason.spec_name()),
            ]);
            reveal_strlit("");
            assert(""@ =~= Seq::<char>::empty());
        }
        r
    }
}

/// What kind of caller input a gather waits for.
#[derive(Debug, Clone, Copy, PartialEq, Eq, Structural)]
pub enum GatherInput {
    Dtmf,
    Speech,
    DtmfSpeech,
}

impl GatherInput {
    /// The markup spelling of the input kind.
    pub open spec fn spec_name(self) -> Seq<char> {
        match self {
            GatherInput::Dtmf => "dtmf"@,
            GatherInput::Speech => "speech"@,
            GatherInput::DtmfSpeech => "dtmf speech"@,
        }
    }
}

/// How long the provider waits for the caller to stop speaking.
#[derive(Debug, Clone, Copy, PartialEq, Eq, Structural)]
pub enum SpeechTimeout {
    Auto,
    Seconds(u32),
}

impl SpeechTimeout {
    /// The markup spelling of the timeout.
    pub open spec fn spec_name(self) -> Seq<char> {
        match self {
            SpeechTimeout::Auto => "auto"@,
            SpeechTimeout::Seconds(s) => dec_digits(s as nat),
        }
    }
}

/// What a gather prompts with while waiting.
#[derive(Debug, Clone)]
pub enum Prompt {
    Nothing,
    Play(Play),
    Say(Say),
}

impl Prompt {
    /// The markup of the prompt, empty when there is none.
    pub open spec fn spec_twiml(self) -> Seq<char> {
        match self {
            Prompt::Nothing => Seq::empty(),
            Prompt::Play(p) => p.spec_twiml(),
            Prompt::Say(s) => s.spec_twiml(),
        }
    }
}

/// Collects the caller's next utterance or keypad input and posts it to the
/// configured action endpoint.
#[derive(Debug, Clone)]
pub struct Gather {
    pub action: Option<String>,
    pub input: Option<GatherInput>,
    pub method: Method,
    pub timeout_seconds: u32,
    pub finish_on_key: char,
    pub num_digits: Option<u32>,
    pub prompt: Prompt,
    pub speech_timeout: Option<SpeechTimeout>,
    pub speech_model: Option<String>,
}

impl Gather {
    /// The attribute list a gather renders, in order: method, action, the
    /// timeouts and input configuration, each optional part only when set.
    pub open spec fn spec_attr_list(self) -> Seq<(Seq<char>, Seq<char>)> {
        let base = seq![("method"@, self.method.spec_name())];
        let with_action = if self.action is Some {
            base.push(("action"@, self.action->0@))
        } else {
            base
        };
        let with_timeout = with_action.push(("timeout"@, dec_digits(self.timeout_seconds as nat)))
            .push(("finishOnKey"@, seq![self.finish_on_key]));
        let with_digits = if self.num_digits is Some {
            with_timeout.push(("numDigits"@, dec_digits(self.num_digits->0 as nat)))
        } else {
            with_timeout
        };
        let with_input = if self.input is Some {
            with_digits.push(("input"@, self.input->0.spec_name()))
        } else {
            with_digits
        };
        let with_speech_timeout = if self.speech_timeout is Some {
            with_input.push(("speechTimeout"@, self.speech_timeout->0.spec_name()))
        } else {
            with_input
        };
        if self.speech_model is Some {
            with_speech_timeout.push(("speechModel"@, self.speech_model->0@))
        } else {
            with_speech_timeout
        }
    }
}

impl Action for Gather {
    open spec fn spec_twiml(&self) -> Seq<char> {
        spec_xml("Gather"@, self.spec_attr_list(), self.prompt.spec_twiml())
    }

    fn as_twiml(&self) -> (r: String)
        ensures
            r@ == self.spec_twiml(),
    {
        let timeout_string = u64_to_string(self.timeout_seconds as u64);
        let mut finish_string = String::new();
        crate::text::push_char(&mut finish_string, self.finish_on_key);
        let digits_string = match self.num_digits {
            Some(d) => Some(u64_to_string(d as u64)),
            None => None,
        };
        let speech_timeout_string = match &self.speech_timeout {
            Some(SpeechTimeout::Auto) => Some("auto".to_owned()),
            Some(SpeechTimeout::Seconds(s)) => Some(u64_to_string(*s as u64)),
            None => None,
        };
        let method_str: &str = match self.method {
            Method::Get => "GET",
            Method::Post => "POST",
        };
        let mut attrs: Vec<(&str, &str)> = Vec::new();
        attrs.push(("method", method_str));
        match &self.action {
            Some(a) => {
                attrs.push(("action", a.as_str()));
            },
            None => {
            },
        }
        attrs.push(("timeout", timeout_string.as_str()));
        attrs.push(("finishOnKey", finish_string.as_str()));
        match &digits_string {
            Some(d) => {
                attrs.push(("numDigits", d.as_str()));
            },
            None => {
            },
        }
        match &self.input {
            Some(i) => {
                let input_str: &str = match i {
                    GatherInput::Dtmf => "dtmf",
                    GatherInput::Speech => "speech",
                    GatherInput::DtmfSpeech => "dtmf speech",
                };
                attrs.push(("input", input_str));
            },
            None => {
            },
        }
        match &speech_timeout_string {
            Some(s) => {
                attrs.push(("speechTimeout", s.as_str()));
            },
            None => {
            },
        }
        match &self.speech_model {
            Some(m) => {
                attrs.push(("speechModel", m.as_str()));
            },
            None => {
            },
        }
        let inner = match &self.prompt {
            Prompt::Nothing => String::new(),
            Prompt::Play(p) => p.as_twiml(),
            Prompt::Say(s) => s.as_twiml(),
        };
        let r = format_xml_string("Gather", &attrs, inner.as_str());
        proof {
            reveal_strlit("auto");
            assert(finish_string@ =~= seq![self.finish_on_key]);
            assert(attrs@.map_values(|p: (&str, &str)| (p.0@, p.1@)) =~= self.spec_attr_list());
            assert(inner@ =~= self.prompt.spec_twiml());
        }
        r
    }
}

impl Default for Gather {
    fn default() -> (r: Gather)
        ensures
            r.action is None,
            r.input is None,
            r.method == Method::Post,
            r.timeout_seconds == 5,
            r.finish_on_key == '*',
            r.num_digits is None,
            r.prompt is Nothing,
            r.speech_timeout is None,
            r.speech_model is None,
    {
        Gather {
            action: None,
            input: None,
            method: Method::Post,
            timeout_seconds: 5,
            finish_on_key: '*',
            num_digits: None,
            prompt: Prompt::Nothing,
            speech_timeout: None,
            speech_model: None,
        }
    }
}

/// The markup document wrapper around the accumulated elements.
pub open spec fn spec_twiml_document(body: Seq<char>) -> Seq<char> {
    "<?xml version=\"1.0\" encoding=\"UTF-8\"?><Response>"@ + body + "</Response>"@
}

/// An outbound response document, accumulating elements in order.
#[derive(Debug, Clone)]
pub struct Twiml {
    pub body: String,
}

impl Twiml {
    /// An empty response.
    pub fn new() -> (r: Twiml)
        ensures
            r.body@ == Seq::<char>::empty(),
    {
        Twiml { body: String::new() }
    }

    /// Appends one element's markup to the response.
    pub fn add<A: Action>(&mut self, action: &A)
        ensures
            final(self).body@ == old(self).body@ + action.spec_twiml(),
    {
        let rendered = action.as_twiml();
        self.body.append(rendered.as_str());
    }

    /// The complete response document.
    pub fn as_twiml(&self) -> (r: String)
        ensures
            r@ == spec_twiml_document(self.body@),
    {
        let mut out = String::new();
        out.append("<?xml version=\"1.0\" encoding=\"UTF-8\"?><Response>");
        out.append(self.body.as_str());
        out.append("</Response>");
        out
    }
}

} // verus!
