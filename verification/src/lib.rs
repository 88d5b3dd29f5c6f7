//! Trust Plane core: causal authority tokens, identity bridges and the
//! signing credentials they depend on.
//!
//! - [`pca`]: the token, its binary encoding, its hash and its signature
//! - [`cat`]: the transition engine, which checks a token and mints the next
//! - [`jwt`] and [`exchange`]: from an external credential to a root token
//! - [`bridge`] and [`bridge_admin`]: bridge configurations and their registry
//! - [`credentials`]: keys, identity document, and the manager that
//!   publishes the current credentials
//! - [`handlers`] and [`server`]: what the two protocol surfaces answer and
//!   expose
//! - [`error`], [`cli`], [`clock`], [`encoding`], [`wire`], [`text`]: what
//!   the rest is built from

use vstd::prelude::*;

pub mod bridge;
pub mod bridge_admin;
pub mod cat;
pub mod cli;
pub mod clock;
pub mod credentials;
pub mod encoding;
pub mod error;
pub mod exchange;
pub mod handlers;
pub mod jwt;
pub mod pca;
pub mod server;
pub mod text;
pub mod wire;

pub use cli::Cli;
pub use credentials::provider::CredentialProvider;
pub use credentials::{CredentialsManager, TrustPlaneCredentials};
pub use error::Error;

verus! {

/// The version of this crate.
pub fn version() -> (out: &'static str)
    ensures
        out@ == "0.1.0"@,
{
    "0.1.0"
}

} // verus!
