use fxa_email_service::dispatch::{
    resolve_provider, send, socketlabs_outcome, Backend, DispatchError, EmailMessage,
    MockProvider, ProviderError, ProviderName, RemoteProvider,
};
use fxa_email_service::mime::Headers;

struct Unreachable {
    attempts: Vec<String>,
}

impl Backend for Unreachable {
    fn deliver(
        &mut self,
        to: &str,
        _cc: &Vec<String>,
        _headers: Option<&Headers>,
        subject: &str,
        _body_text: &str,
        _body_html: Option<&str>,
    ) -> Result<String, ProviderError> {
        self.attempts.push(format!("{} {}", to, subject));
        Err(ProviderError { name: "test".to_string(), description: "unreachable".to_string() })
    }
}
use fxa_email_service::limiter::{BounceLimit, BounceLimiter, BounceLimits, Category};

fn message(to: &str) -> EmailMessage {
    EmailMessage {
        to: to.to_string(),
        cc: vec![],
        headers: None,
        subject: "s".to_string(),
        body_text: "t".to_string(),
        body_html: None,
    }
}

fn limiter() -> BounceLimiter {
    BounceLimiter::new(BounceLimits {
        enabled: true,
        complaint: vec![BounceLimit { period: 100, limit: 1 }],
        hard: vec![],
        soft: vec![],
    })
}

#[test]
fn refused_recipient_reaches_no_backend() {
    let mut lim = limiter();
    lim.record_event("a@x.com", Category::Complaint, 10);
    let mut mock = MockProvider::new();
    let r = send(&lim, &mut mock, &message("a@x.com"), 20);
    assert!(matches!(r, Err(DispatchError::LimitExceeded)));
    assert_eq!(mock.calls(), 0);
}

#[test]
fn admitted_recipient_reaches_backend_once() {
    let lim = limiter();
    let mut mock = MockProvider::new();
    let r = send(&lim, &mut mock, &message("a@x.com"), 20);
    assert_eq!(r.unwrap(), "deadbeef");
    assert_eq!(mock.calls(), 1);
    assert_eq!(mock.recipient(0), "a@x.com");
}

#[test]
fn provider_names_round_trip() {
    for p in [ProviderName::Ses, ProviderName::Sendgrid, ProviderName::SocketLabs, ProviderName::Mock] {
        assert_eq!(ProviderName::parse(&p.as_string()), Some(p));
    }
    assert_eq!(ProviderName::parse("smtp"), None);
    assert_eq!(ProviderName::Ses.as_string(), "ses");
}

#[test]
fn override_wins_over_default() {
    assert_eq!(resolve_provider(Some(ProviderName::Mock), ProviderName::Ses), ProviderName::Mock);
    assert_eq!(resolve_provider(None, ProviderName::Ses), ProviderName::Ses);
}

#[test]
fn socketlabs_outcomes() {
    assert_eq!(socketlabs_outcome(true, "Success").unwrap(), "");
    let e = socketlabs_outcome(false, "Warning: Warning").unwrap_err();
    assert_eq!(e.name, "SocketLabs");
    assert_eq!(e.description, "Warning: Warning");
}

#[test]
fn backend_error_is_wrapped() {
    let e = fxa_email_service::dispatch::ProviderError {
        name: "SocketLabs".to_string(),
        description: "down".to_string(),
    };
    match fxa_email_service::dispatch::dispatch_outcome(Err(e)) {
        Err(DispatchError::Provider(p)) => {
            assert_eq!(p.name, "SocketLabs");
            assert_eq!(p.description, "down");
        }
        _ => panic!("expected a provider error"),
    }
    assert_eq!(fxa_email_service::dispatch::dispatch_outcome(Ok("id".to_string())).unwrap(), "id");
}

#[test]
fn remote_provider_hands_message_to_backend() {
    let lim = limiter();
    let mut provider = RemoteProvider::new(Unreachable { attempts: vec![] });
    match send(&lim, &mut provider, &message("b@x.com"), 5) {
        Err(DispatchError::Provider(e)) => assert_eq!(e.description, "unreachable"),
        _ => panic!("expected the backend's error"),
    }
    let mut refusing = limiter();
    refusing.record_event("b@x.com", Category::Complaint, 5);
    let r = send(&refusing, &mut provider, &message("b@x.com"), 6);
    assert!(matches!(r, Err(DispatchError::LimitExceeded)));
    assert_eq!(provider.backend().attempts, vec!["b@x.com s".to_string()]);
}
