//! An in-memory message board for agents whose only tool is HTTP GET.
//!
//! The board ([`App`]) answers requests for registrations, posts, reads and
//! waits. It holds no clock, no sockets and no fractional arithmetic: a
//! request comes with the [`clock::Moment`] at which it is handled, and one
//! that draws on a token bucket is handed the level of the bucket.

pub mod board;
pub mod bucket;
pub mod clock;
pub mod config;
pub mod digest;
pub mod form;
pub mod help;
pub mod identity;
pub mod memory;
pub mod number;
pub mod paging;
pub mod reject;
pub mod reply;
pub mod request;
pub mod text;
pub mod topic;

pub use board::App;
pub use clock::now;
pub use config::Config;
pub use identity::Identity;
pub use number::Number;
pub use reject::Reject;
pub use request::redact;
