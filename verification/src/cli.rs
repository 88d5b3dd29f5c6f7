//! Command-line settings of the Trust Plane and their defaults.

use vstd::prelude::*;
use vstd::string::*;
use crate::credentials::provider::{FileProvider, InMemoryProvider};
use crate::error::{Error, ErrorKind};
use crate::text::{join2, str_eq};

verus! {

/// The settings that the command line and the environment give.
#[derive(Debug)]
pub struct Cli {
    /// Enable debug mode (human-readable logs)
    pub debug: bool,
    /// Log level
    pub log_level: String,
    /// Directory for application data
    pub appdata: String,
    /// Trust Plane identity
    pub did: String,
    /// Organization name
    pub organization: String,
    /// Credential provider: inmemory, file
    pub credential_provider: String,
    /// Path to issuer private key (file provider)
    pub issuer_key_path: Option<String>,
    /// Path to CAT private key (file provider)
    pub cat_key_path: Option<String>,
    /// Path to identity document (file provider)
    pub did_doc_path: Option<String>,
    /// Path to self-issued credential (file provider)
    pub credential_path: Option<String>,
    /// Bind address
    pub bind_address: String,
    /// HTTP port
    pub http_port: u16,
    /// RPC port
    pub grpc_port: u16,
    /// Enable the metrics route
    pub metrics_enabled: bool,
    /// Enable bridge administration
    pub bridge_admin_enabled: bool,
    /// Shutdown grace period in seconds
    pub shutdown_grace_period: u64,
}

impl Default for Cli {
    /// The settings of a Trust Plane started with no argument: the
    /// in-memory provider, metrics on, and bridge administration off.
    fn default() -> (out: Self)
        ensures
            !out.debug,
            out.log_level@ == "INFO"@,
            out.appdata@ == "./"@,
            out.did@ == "did:web:localhost"@,
            out.organization@ == "Permguard"@,
            out.credential_provider@ == "inmemory"@,
            out.issuer_key_path is None,
            out.cat_key_path is None,
            out.did_doc_path is None,
            out.credential_path is None,
            out.bind_address@ == "0.0.0.0"@,
            out.http_port == 9000,
            out.grpc_port == 9001,
            out.metrics_enabled,
            !out.bridge_admin_enabled,
            out.shutdown_grace_period == 30,
    {
        Cli {
            debug: false,
            log_level: String::from_str("INFO"),
            appdata: String::from_str("./"),
            did: String::from_str("did:web:localhost"),
            organization: String::from_str("Permguard"),
            credential_provider: String::from_str("inmemory"),
            issuer_key_path: None,
            cat_key_path: None,
            did_doc_path: None,
            credential_path: None,
            bind_address: String::from_str("0.0.0.0"),
            http_port: 9000,
            grpc_port: 9001,
            metrics_enabled: true,
            bridge_admin_enabled: false,
            shutdown_grace_period: 30,
        }
    }
}

/// The credential provider that the settings select.
#[derive(Debug)]
pub enum ProviderChoice {
    /// Fresh keys at every start, for the identity and organization given
    InMemory(InMemoryProvider),
    /// Keys and documents from the four files given
    File(FileProvider),
}

impl Cli {
    /// Why the settings select no credential provider; nothing where they
    /// select one. The file provider needs all four paths; they are asked
    /// for in the order issuer key, CAT key, identity document, credential.
    pub open spec fn provider_fault(&self) -> Option<Seq<char>> {
        if self.credential_provider@ == "inmemory"@ {
            None
        } else if self.credential_provider@ == "file"@ {
            if self.issuer_key_path is None {
                Some("issuer-key-path is required by the file provider"@)
            } else if self.cat_key_path is None {
                Some("cat-key-path is required by the file provider"@)
            } else if self.did_doc_path is None {
                Some("did-doc-path is required by the file provider"@)
            } else if self.credential_path is None {
                Some("credential-path is required by the file provider"@)
            } else {
                None
            }
        } else {
            Some("Unknown credential provider: "@ + self.credential_provider@)
        }
    }

    /// The credential provider that the settings select: "inmemory" with
    /// the identity and organization of the settings, or "file" with their
    /// four paths. Fails with `Config` for another name, and for the file
    /// provider without one of its paths.
    pub fn provider(&self) -> (out: Result<ProviderChoice, Error>)
        ensures
            match out {
                Ok(ProviderChoice::InMemory(p)) => self.provider_fault() is None
                    && self.credential_provider@ == "inmemory"@ && p.did@ == self.did@
                    && p.organization@ == self.organization@,
                Ok(ProviderChoice::File(f)) => self.provider_fault() is None
                    && self.credential_provider@ == "file"@ && Some(f.issuer_key_path@)
                    == self.issuer_key_path.deep_view() && Some(f.cat_key_path@)
                    == self.cat_key_path.deep_view() && Some(f.did_doc_path@)
                    == self.did_doc_path.deep_view() && Some(f.credential_path@)
                    == self.credential_path.deep_view(),
                Err(e) => self.provider_fault() is Some && e.carries(
                    ErrorKind::Config,
                    self.provider_fault()->Some_0,
                ),
            },
    {
        proof {
            reveal_strlit("inmemory");
            reveal_strlit("file");
        }
        if str_eq(self.credential_provider.as_str(), "inmemory") {
            return Ok(
                ProviderChoice::InMemory(
                    InMemoryProvider {
                        did: self.did.clone(),
                        organization: self.organization.clone(),
                    },
                ),
            );
        }
        if !str_eq(self.credential_provider.as_str(), "file") {
            return Err(
                Error::Config(
                    join2("Unknown credential provider: ", self.credential_provider.as_str()),
                ),
            );
        }
        let issuer_key_path = match &self.issuer_key_path {
            Some(path) => path.clone(),
            None => {
                return Err(
                    Error::Config(
                        String::from_str("issuer-key-path is required by the file provider"),
                    ),
                );
            },
        };
        let cat_key_path = match &self.cat_key_path {
            Some(path) => path.clone(),
            None => {
                return Err(
                    Error::Config(String::from_str("cat-key-path is required by the file provider")),
                );
            },
        };
        let did_doc_path = match &self.did_doc_path {
            Some(path) => path.clone(),
            None => {
                return Err(
                    Error::Config(String::from_str("did-doc-path is required by the file provider")),
                );
            },
        };
        let credential_path = match &self.credential_path {
            Some(path) => path.clone(),
            None => {
                return Err(
                    Error::Config(
                        String::from_str("credential-path is required by the file provider"),
                    ),
                );
            },
        };
        Ok(
            ProviderChoice::File(
                FileProvider { issuer_key_path, cat_key_path, did_doc_path, credential_path },
            ),
        )
    }
}

} // verus!
