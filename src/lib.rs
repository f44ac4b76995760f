//! A transactional email dispatch core: MIME construction, bounce and
//! complaint admission control, provider dispatch and the decisions of the
//! queue consumption loop.

pub mod dispatch;
pub mod limiter;
pub mod mime;
pub mod queue;
pub mod settings;
