//! Error taxonomy of a deployment run.
//!
//! Configuration errors are always fatal and are detected before any remote
//! state is touched; transport and remote-rejection errors carry the peer's
//! words verbatim, since they are the only diagnostic artifact available.

use vstd::prelude::*;

use crate::text::{dec_digits, push_chars, push_dec, string_from_chars};

verus! {

/// A fatal error in the catalog or the run's configuration.
#[derive(Debug, PartialEq, Eq)]
pub enum ConfigError {
    /// A container's memory limit is not a strictly positive multiple of 256.
    InvalidMemory { service: String, container: String, mem: u32 },
    /// Two services claim the same public TCP port.
    DuplicateTcpPort { port: u32, first_service: String, second_service: String },
    /// Two services claim the same public HTTP subdomain.
    DuplicateSubdomain { subdomain: String, first_service: String, second_service: String },
    /// A requested service name is not a catalog entry.
    UnknownChallenge { name: String },
    /// Two distinct containers derive the same machine name, so the join
    /// key between desired and actual state would be ambiguous.
    AmbiguousDerivedName {
        name: String,
        first_service: String,
        first_container: String,
        second_service: String,
        second_container: String,
    },
}

/// Any error a deployment run can end with.
#[derive(Debug, PartialEq, Eq)]
pub enum DeployError {
    /// Invalid configuration, detected locally.
    Config(ConfigError),
    /// The remote call itself failed; carries the transport's words.
    Transport(String),
    /// The remote side rejected the request; carries the raw body verbatim.
    RemoteRejection(String),
    /// A bounded wait for readiness ran out; names what was waited on.
    Timeout(String),
}

impl ConfigError {
    /// The rendered message of this error.
    pub open spec fn message_model(self) -> Seq<char> {
        match self {
            ConfigError::InvalidMemory { service, container, mem } => "memory of "@ + service@
                + "/"@ + container@ + " must be a positive multiple of 256, got "@ + dec_digits(
                mem as nat,
            ),
            ConfigError::DuplicateTcpPort { port, first_service, second_service } => {
                "tcp port "@ + dec_digits(port as nat) + " is declared by both "@ + first_service@
                    + " and "@ + second_service@
            },
            ConfigError::DuplicateSubdomain { subdomain, first_service, second_service } => {
                "subdomain "@ + subdomain@ + " is declared by both "@ + first_service@ + " and "@
                    + second_service@
            },
            ConfigError::UnknownChallenge { name } => "unknown challenge "@ + name@,
            ConfigError::AmbiguousDerivedName {
                name,
                first_service,
                first_container,
                second_service,
                second_container,
            } => {
                "derived machine name "@ + name@ + " is ambiguous between "@ + first_service@
                    + "/"@ + first_container@ + " and "@ + second_service@ + "/"@
                    + second_container@
            },
        }
    }

    /// Renders the error for display.
    pub fn message(&self) -> (r: String)
        ensures
            r@ == self.message_model(),
    {
        let mut out: Vec<char> = Vec::new();
        match self {
            ConfigError::InvalidMemory { service, container, mem } => {
                push_chars(&mut out, "memory of ");
                push_chars(&mut out, service.as_str());
                push_chars(&mut out, "/");
                push_chars(&mut out, container.as_str());
                push_chars(&mut out, " must be a positive multiple of 256, got ");
                push_dec(&mut out, *mem as u64);
            },
            ConfigError::DuplicateTcpPort { port, first_service, second_service } => {
                push_chars(&mut out, "tcp port ");
                push_dec(&mut out, *port as u64);
                push_chars(&mut out, " is declared by both ");
                push_chars(&mut out, first_service.as_str());
                push_chars(&mut out, " and ");
                push_chars(&mut out, second_service.as_str());
            },
            ConfigError::DuplicateSubdomain { subdomain, first_service, second_service } => {
                push_chars(&mut out, "subdomain ");
                push_chars(&mut out, subdomain.as_str());
                push_chars(&mut out, " is declared by both ");
                push_chars(&mut out, first_service.as_str());
                push_chars(&mut out, " and ");
                push_chars(&mut out, second_service.as_str());
            },
            ConfigError::UnknownChallenge { name } => {
                push_chars(&mut out, "unknown challenge ");
                push_chars(&mut out, name.as_str());
            },
            ConfigError::AmbiguousDerivedName {
                name,
                first_service,
                first_container,
                second_service,
                second_container,
            } => {
                push_chars(&mut out, "derived machine name ");
                push_chars(&mut out, name.as_str());
                push_chars(&mut out, " is ambiguous between ");
                push_chars(&mut out, first_service.as_str());
                push_chars(&mut out, "/");
                push_chars(&mut out, first_container.as_str());
                push_chars(&mut out, " and ");
                push_chars(&mut out, second_service.as_str());
                push_chars(&mut out, "/");
                push_chars(&mut out, second_container.as_str());
            },
        }
        string_from_chars(&out)
    }
}

impl DeployError {
    /// The rendered message of this error.
    pub open spec fn message_model(self) -> Seq<char> {
        match self {
            DeployError::Config(e) => "configuration error: "@ + e.message_model(),
            DeployError::Transport(s) => "transport error: "@ + s@,
            DeployError::RemoteRejection(s) => "remote rejection: "@ + s@,
            DeployError::Timeout(s) => "timed out waiting for "@ + s@,
        }
    }

    /// Renders the error for display.
    pub fn message(&self) -> (r: String)
        ensures
            r@ == self.message_model(),
    {
        let mut out: Vec<char> = Vec::new();
        match self {
            DeployError::Config(e) => {
                push_chars(&mut out, "configuration error: ");
                let tail = e.message();
                push_chars(&mut out, tail.as_str());
            },
            DeployError::Transport(s) => {
                push_chars(&mut out, "transport error: ");
                push_chars(&mut out, s.as_str());
            },
            DeployError::RemoteRejection(s) => {
                push_chars(&mut out, "remote rejection: ");
                push_chars(&mut out, s.as_str());
            },
            DeployError::Timeout(s) => {
                push_chars(&mut out, "timed out waiting for ");
                push_chars(&mut out, s.as_str());
            },
        }
        string_from_chars(&out)
    }
}

impl Clone for ConfigError {
    /// Clones preserve the error exactly.
    fn clone(&self) -> (res: Self)
        ensures
            res == *self,
    {
        match self {
            ConfigError::InvalidMemory { service, container, mem } => ConfigError::InvalidMemory {
                service: service.clone(),
                container: container.clone(),
                mem: *mem,
            },
            ConfigError::DuplicateTcpPort {
                port,
                first_service,
                second_service,
            } => ConfigError::DuplicateTcpPort {
                port: *port,
                first_service: first_service.clone(),
                second_service: second_service.clone(),
            },
            ConfigError::DuplicateSubdomain {
                subdomain,
                first_service,
                second_service,
            } => ConfigError::DuplicateSubdomain {
                subdomain: subdomain.clone(),
                first_service: first_service.clone(),
                second_service: second_service.clone(),
            },
            ConfigError::UnknownChallenge { name } => ConfigError::UnknownChallenge {
                name: name.clone(),
            },
            ConfigError::AmbiguousDerivedName {
                name,
                first_service,
                first_container,
                second_service,
                second_container,
            } => ConfigError::AmbiguousDerivedName {
                name: name.clone(),
                first_service: first_service.clone(),
                first_container: first_container.clone(),
                second_service: second_service.clone(),
                second_container: second_container.clone(),
            },
        }
    }
}

} // verus!
