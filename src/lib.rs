//! Identity, session and authorization core of the logline runtime daemon.
//!
//! Every request is answered by deciding who calls, with what trust, and
//! what they may touch:
//!
//! - [`identity`] pulls the credential out of a request and resolves it as
//!   the bootstrap secret, a session token, or a verified JWT.
//! - [`session`] keeps the server-issued session tokens with their lifetimes.
//! - [`challenge`] runs the CLI pairing protocol: a pending challenge is
//!   approved or denied once, or lapses after five minutes.
//! - [`intent`] runs the signed-intent protocol: founder keys, one-time
//!   verification of Ed25519-signed intents, single execution, audit trail.
//! - [`rbac`] resolves the (workspace, app, user) scope of a request and
//!   enforces the `Read` / `Write` / `PrivateRead` tiers.
//! - [`cli`] holds the decisions of the command-line client.
//! - [`codec`], [`timestamp`], [`text`] and [`clock`] are the encodings,
//!   timestamp parsing, string handling and clock readings these rely on.
//! - [`error`] is the error taxonomy with its HTTP statuses.
//!
//! The clock, JWT verification and randomness come from outside; functions
//! take their results as arguments, so each contract holds for every value
//! the outside world can hand in.

pub mod challenge;
pub mod cli;
pub mod clock;
pub mod codec;
pub mod error;
pub mod identity;
pub mod intent;
pub mod onboarding;
pub mod rbac;
pub mod session;
pub mod text;
pub mod timestamp;
