//! Provider dispatch: admission through the limiter, one call to the chosen
//! backend, and errors in one uniform shape.
use vstd::prelude::*;

use crate::limiter::{allowed, BounceLimiter};
use crate::mime::{headers_view, html_view, views, Headers};

verus! {

/// The backends a message can be sent through.
#[derive(Debug, Clone, Copy, PartialEq, Eq, Structural)]
pub enum ProviderName {
    Ses,
    Sendgrid,
    SocketLabs,
    Mock,
}

/// The configuration name of each backend.
pub open spec fn provider_name_text(p: ProviderName) -> Seq<char> {
    match p {
        ProviderName::Ses => "ses"@,
        ProviderName::Sendgrid => "sendgrid"@,
        ProviderName::SocketLabs => "socketlabs"@,
        ProviderName::Mock => "mock"@,
    }
}

/// The backend whose configuration name is `s`, if any.
pub open spec fn provider_from_text(s: Seq<char>) -> Option<ProviderName> {
    if s == "ses"@ {
        Some(ProviderName::Ses)
    } else if s == "sendgrid"@ {
        Some(ProviderName::Sendgrid)
    } else if s == "socketlabs"@ {
        Some(ProviderName::SocketLabs)
    } else if s == "mock"@ {
        Some(ProviderName::Mock)
    } else {
        None
    }
}

impl ProviderName {
    /// The configuration name of this backend.
    pub fn as_string(&self) -> (r: String)
        ensures
            r@ == provider_name_text(*self),
    {
        match self {
            ProviderName::Ses => String::from_str("ses"),
            ProviderName::Sendgrid => String::from_str("sendgrid"),
            ProviderName::SocketLabs => String::from_str("socketlabs"),
            ProviderName::Mock => String::from_str("mock"),
        }
    }

    /// The backend named `s`; `None` for a name of no backend.
    pub fn parse(s: &str) -> (r: Option<ProviderName>)
        ensures
            r == provider_from_text(s@),
    {
        let t = s.to_owned();
        if t == String::from_str("ses") {
            Some(ProviderName::Ses)
        } else if t == String::from_str("sendgrid") {
            Some(ProviderName::Sendgrid)
        } else if t == String::from_str("socketlabs") {
            Some(ProviderName::SocketLabs)
        } else if t == String::from_str("mock") {
            Some(ProviderName::Mock)
        } else {
            None
        }
    }
}

/// The backend for one send: the one the request names, else the default.
pub fn resolve_provider(requested: Option<ProviderName>, default: ProviderName) -> (r:
    ProviderName)
    ensures
        r == match requested {
            Some(p) => p,
            None => default,
        },
{
    match requested {
        Some(p) => p,
        None => default,
    }
}

/// A backend's failure: which backend, and what it reported.
#[derive(Debug, Clone)]
pub struct ProviderError {
    pub name: String,
    pub description: String,
}

/// Why a send did not go out.
#[derive(Debug, Clone)]
pub enum DispatchError {
    /// The recipient is over a bounce or complaint limit; no backend was
    /// called.
    LimitExceeded,
    /// The backend failed.
    Provider(ProviderError),
}

/// A message to send: recipient, copies, custom headers, subject and bodies.
/// The sender comes from the backend's configuration.
pub struct EmailMessage {
    pub to: String,
    pub cc: Vec<String>,
    pub headers: Option<Headers>,
    pub subject: String,
    pub body_text: String,
    pub body_html: Option<String>,
}

/// One call to a backend: recipient, copies, custom headers, subject, text
/// body and HTML body.
pub type SentCall = (
    Seq<char>,
    Seq<Seq<char>>,
    Seq<(Seq<char>, Seq<char>)>,
    Seq<char>,
    Seq<char>,
    Option<Seq<char>>,
);

/// The call made with these arguments.
pub open spec fn sent_call(
    to: &str,
    cc: &Vec<String>,
    headers: Option<&Headers>,
    subject: &str,
    body_text: &str,
    body_html: Option<&str>,
) -> SentCall {
    (to@, views(cc@), headers_view(headers), subject@, body_text@, html_view(body_html))
}

/// The one capability every backend offers: send a message, returning the
/// backend's message id, which may be empty.
pub trait Provider {
    /// The calls this backend has received, oldest first.
    spec fn sent(&self) -> Seq<SentCall>;

    /// Sends one message; the call is recorded whatever the outcome.
    fn send(
        &mut self,
        to: &str,
        cc: &Vec<String>,
        headers: Option<&Headers>,
        subject: &str,
        body_text: &str,
        body_html: Option<&str>,
    ) -> (r: Result<String, ProviderError>)
        ensures
            final(self).sent() == old(self).sent().push(
                sent_call(to, cc, headers, subject, body_text, body_html),
            ),
    ;
}

/// A backend that sends nothing and keeps the calls it was given.
pub struct MockProvider {
    recipients: Vec<String>,
    log: Ghost<Seq<SentCall>>,
}

impl MockProvider {
    #[verifier::type_invariant]
    spec fn inv(&self) -> bool {
        &&& self.recipients@.len() == self.log@.len()
        &&& forall|i: int| 0 <= i < self.log@.len() ==> (#[trigger] self.log@[i]).0 == self.recipients@[i]@
    }

    /// A mock that has received no call.
    pub fn new() -> (r: MockProvider)
        ensures
            r.sent() == Seq::<SentCall>::empty(),
    {
        MockProvider { recipients: Vec::new(), log: Ghost(Seq::empty()) }
    }

    /// The number of calls received so far.
    pub fn calls(&self) -> (r: usize)
        ensures
            r == self.sent().len(),
    {
        proof {
            use_type_invariant(self);
        }
        self.recipients.len()
    }

    /// The recipient of call `i`.
    pub fn recipient(&self, i: usize) -> (r: &String)
        requires
            i < self.sent().len(),
        ensures
            r@ == self.sent()[i as int].0,
    {
        proof {
            use_type_invariant(self);
        }
        &self.recipients[i]
    }
}

impl Provider for MockProvider {
    closed spec fn sent(&self) -> Seq<SentCall> {
        self.log@
    }

    fn send(
        &mut self,
        to: &str,
        cc: &Vec<String>,
        headers: Option<&Headers>,
        subject: &str,
        body_text: &str,
        body_html: Option<&str>,
    ) -> (r: Result<String, ProviderError>) {
        let mut taken = MockProvider::new();
        core::mem::swap(self, &mut taken);
        proof {
            use_type_invariant(&taken);
        }
        let MockProvider { mut recipients, log } = taken;
        recipients.push(to.to_owned());
        *self = MockProvider {
            recipients,
            log: Ghost(log@.push(sent_call(to, cc, headers, subject, body_text, body_html))),
        };
        Ok(String::from_str("deadbeef"))
    }
}

/// A backend reached over the network. Implementations perform the send and
/// report its outcome; `RemoteProvider` turns one into a `Provider`.
pub trait Backend {
    fn deliver(
        &mut self,
        to: &str,
        cc: &Vec<String>,
        headers: Option<&Headers>,
        subject: &str,
        body_text: &str,
        body_html: Option<&str>,
    ) -> Result<String, ProviderError>;
}

/// A `Provider` that hands each call to a `Backend`, unchanged, and keeps
/// the calls it handed on.
pub struct RemoteProvider<B: Backend> {
    backend: B,
    log: Ghost<Seq<SentCall>>,
}

impl<B: Backend> RemoteProvider<B> {
    /// A provider over `backend` that has received no call.
    pub fn new(backend: B) -> (r: RemoteProvider<B>)
        ensures
            r.sent() == Seq::<SentCall>::empty(),
    {
        RemoteProvider { backend, log: Ghost(Seq::empty()) }
    }

    /// The backend calls are handed to.
    pub closed spec fn backend_spec(&self) -> B {
        self.backend
    }

    /// The backend calls are handed to.
    pub fn backend(&self) -> (r: &B)
        ensures
            *r == self.backend_spec(),
    {
        &self.backend
    }
}

impl<B: Backend> Provider for RemoteProvider<B> {
    closed spec fn sent(&self) -> Seq<SentCall> {
        self.log@
    }

    fn send(
        &mut self,
        to: &str,
        cc: &Vec<String>,
        headers: Option<&Headers>,
        subject: &str,
        body_text: &str,
        body_html: Option<&str>,
    ) -> (r: Result<String, ProviderError>) {
        self.log = Ghost(self.log@.push(sent_call(to, cc, headers, subject, body_text, body_html)));
        self.backend.deliver(to, cc, headers, subject, body_text, body_html)
    }
}

/// The backend call that sends `message`.
pub open spec fn message_call(message: &EmailMessage) -> SentCall {
    (
        message.to@,
        views(message.cc@),
        match message.headers {
            Some(h) => h@,
            None => Seq::empty(),
        },
        message.subject@,
        message.body_text@,
        match message.body_html {
            Some(h) => Some(h@),
            None => None,
        },
    )
}

/// Sends `message` through `provider` if the limiter admits its recipient at
/// `now`. A refused recipient gets `LimitExceeded` and the backend is not
/// called; otherwise the backend is called once, with the message's fields,
/// and what it returns comes back as `dispatch_outcome` maps it.
pub fn send<P: Provider>(
    limiter: &BounceLimiter,
    provider: &mut P,
    message: &EmailMessage,
    now: u64,
) -> (r: Result<String, DispatchError>)
    ensures
        !allowed(limiter.limits(), limiter.events(), message.to@, now) ==> r matches Err(
            DispatchError::LimitExceeded,
        ),
        !allowed(limiter.limits(), limiter.events(), message.to@, now) ==> *final(provider)
            == *old(provider),
        allowed(limiter.limits(), limiter.events(), message.to@, now) ==> !(r matches Err(
            DispatchError::LimitExceeded,
        )),
        allowed(limiter.limits(), limiter.events(), message.to@, now) ==> final(provider).sent()
            == old(provider).sent().push(message_call(message)),
{
    if !limiter.is_allowed(message.to.as_str(), now) {
        return Err(DispatchError::LimitExceeded);
    }
    let html = match &message.body_html {
        Some(h) => Some(h.as_str()),
        None => None,
    };
    let sent = provider.send(
        message.to.as_str(),
        &message.cc,
        message.headers.as_ref(),
        message.subject.as_str(),
        message.body_text.as_str(),
        html,
    );
    dispatch_outcome(sent)
}

/// What a send returns for the backend's result: its id, or its error
/// wrapped as a provider failure.
pub fn dispatch_outcome(sent: Result<String, ProviderError>) -> (r: Result<String, DispatchError>)
    ensures
        sent matches Ok(id) ==> r == Ok::<String, DispatchError>(id),
        sent matches Err(e) ==> r == Err::<String, DispatchError>(DispatchError::Provider(e)),
{
    match sent {
        Ok(id) => Ok(id),
        Err(e) => Err(DispatchError::Provider(e)),
    }
}

/// The result of a SocketLabs request: success gives an empty id, any other
/// response code an error named `SocketLabs` that carries the code's text.
pub fn socketlabs_outcome(success: bool, code: &str) -> (r: Result<String, ProviderError>)
    ensures
        success ==> (r matches Ok(id) && id@ == Seq::<char>::empty()),
        !success ==> (r matches Err(e) && e.name@ == "SocketLabs"@ && e.description@ == code@),
{
    if success {
        Ok(String::new())
    } else {
        Err(ProviderError { name: String::from_str("SocketLabs"), description: code.to_owned() })
    }
}

} // verus!
