//! Typed configuration consumed by the core. Loading and validating it is
//! the caller's work; values arrive here already checked.
use vstd::prelude::*;

pub use crate::limiter::{BounceLimit, BounceLimits};
use crate::dispatch::ProviderName;

verus! {

/// The store of bounce, complaint and delivery records.
#[derive(Debug, Clone)]
pub struct AuthDb {
    /// Its base URI.
    pub baseuri: String,
}

/// AWS access and secret keys. Sensitive: never logged.
#[derive(Debug, Clone)]
pub struct AwsKeys {
    pub access: String,
    pub secret: String,
}

/// URLs of the four queues.
#[derive(Debug, Clone)]
pub struct SqsUrls {
    /// Incoming bounces.
    pub bounce: String,
    /// Incoming complaints.
    pub complaint: String,
    /// Incoming deliveries.
    pub delivery: String,
    /// Outgoing notifications, forwarded for other subscribers.
    pub notification: String,
}

/// Settings for AWS.
#[derive(Debug, Clone)]
pub struct Aws {
    /// Keys; absent where the environment provides them.
    pub keys: Option<AwsKeys>,
    /// The region for SES and SQS.
    pub region: String,
    /// Queue URLs; the queue loop cannot start without them.
    pub sqsurls: Option<SqsUrls>,
}

/// The shared counter store.
#[derive(Debug, Clone)]
pub struct Redis {
    pub host: String,
    pub port: u16,
}

/// The address and display name used for `From` and `Sender`.
#[derive(Debug, Clone)]
pub struct Sender {
    pub address: String,
    pub name: String,
}

/// Sendgrid credentials. Sensitive: never logged.
#[derive(Debug, Clone)]
pub struct Sendgrid {
    pub key: String,
}

/// SocketLabs credentials. Sensitive: never logged.
#[derive(Debug, Clone)]
pub struct SocketLabs {
    pub serverid: u16,
    pub key: String,
}

/// The root settings object.
#[derive(Debug, Clone)]
pub struct Settings {
    pub authdb: AuthDb,
    pub aws: Aws,
    /// Bounce and complaint thresholds; offending addresses are refused.
    pub bouncelimits: BounceLimits,
    /// Key for hashing message ids. Sensitive: never logged.
    pub hmackey: String,
    /// Log format: `mozlog`, `pretty` or `null`.
    pub logging: String,
    /// The default backend; a request may name another.
    pub provider: ProviderName,
    pub redis: Redis,
    pub sender: Sender,
    pub sendgrid: Option<Sendgrid>,
    pub socketlabs: Option<SocketLabs>,
}

} // verus!
