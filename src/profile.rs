use vstd::prelude::*;
use crate::backend::{ClientError, KeyProblem, MissingField};
use crate::text::{seq_contains, text_contains, trim_whitespace, trimmed};

verus! {

/// Connection parameters of one named profile. Every field is optional; each backend
/// demands what it needs when it is selected.
#[derive(Debug)]
pub struct Profile {
    pub profile_type: String,
    pub account: Option<String>,
    pub user: Option<String>,
    pub password: Option<String>,
    pub private_key: Option<String>,
    pub role: Option<String>,
    pub warehouse: Option<String>,
    pub database: Option<String>,
    pub schema: Option<String>,
    pub threads: Option<u32>,
    pub client_session_keep_alive: Option<bool>,
    pub connect_retries: Option<u32>,
    pub connect_timeout: Option<u32>,
    pub retry_on_database_errors: Option<bool>,
    pub retry_all: Option<bool>,
    pub reuse_connections: Option<bool>,
}

pub open spec fn opt_text(o: Option<String>) -> Option<Seq<char>> {
    match o {
        Some(s) => Some(s@),
        None => None,
    }
}

pub open spec fn opt_trimmed(o: Option<String>) -> Option<Seq<char>> {
    match o {
        Some(s) => Some(trimmed(s@)),
        None => None,
    }
}

fn clone_opt(o: &Option<String>) -> (r: Option<String>)
    ensures
        opt_text(r) == opt_text(*o),
{
    match o {
        Some(s) => Some(s.clone()),
        None => None,
    }
}

/// The settings handed to the native-protocol driver. A private key, when present,
/// is used trimmed and selects key-pair (JWT) authentication.
#[derive(Debug)]
pub struct NativeSettings {
    pub account: Option<String>,
    pub username: Option<String>,
    pub password: Option<String>,
    pub jwt_private_key: Option<String>,
    pub role: Option<String>,
    pub warehouse: Option<String>,
    pub database: Option<String>,
    pub schema: Option<String>,
    pub keep_session_alive: Option<bool>,
}

/// How the row-oriented backend authenticates.
#[derive(Debug)]
pub enum RowAuth {
    Password(String),
    /// An encrypted PEM private key, unlocked with `key_password` (empty when the
    /// profile has no password).
    KeyPair { encrypted_pem: String, key_password: String },
}

/// The settings of the row-oriented backend.
#[derive(Debug)]
pub struct RowSettings {
    pub account: String,
    pub user: String,
    pub auth: RowAuth,
    pub role: Option<String>,
    pub warehouse: Option<String>,
    pub database: Option<String>,
    pub schema: Option<String>,
}

/// How the API backends authenticate.
#[derive(Debug)]
pub enum ApiAuth {
    /// A private key, trimmed, in any PEM form.
    Certificate(String),
    Password(String),
}

/// The settings of the API backends, columnar and JSON alike.
#[derive(Debug)]
pub struct ApiSettings {
    pub account: String,
    pub user: String,
    pub auth: ApiAuth,
    pub role: Option<String>,
    pub warehouse: Option<String>,
    pub database: Option<String>,
    pub schema: Option<String>,
}

pub open spec fn encrypted_marker() -> Seq<char> {
    "ENCRYPTED PRIVATE KEY"@
}

pub open spec fn key_marker() -> Seq<char> {
    "PRIVATE KEY"@
}

/// The error, if any, with which the row-oriented backend refuses a profile.
pub open spec fn row_refusal(p: Profile) -> Option<ClientError> {
    if p.account is None {
        Some(ClientError::Missing(MissingField::Account))
    } else if p.user is None {
        Some(ClientError::Missing(MissingField::User))
    } else if p.private_key is Some {
        let key = trimmed(p.private_key->0@);
        if seq_contains(key, encrypted_marker()) {
            None
        } else if seq_contains(key, key_marker()) {
            Some(ClientError::UnsupportedKeyFormat(KeyProblem::Unencrypted))
        } else {
            Some(ClientError::UnsupportedKeyFormat(KeyProblem::Unrecognized))
        }
    } else if p.password is Some {
        None
    } else {
        Some(ClientError::Missing(MissingField::Credential))
    }
}

/// The error, if any, with which the API backends refuse a profile.
pub open spec fn api_refusal(p: Profile) -> Option<ClientError> {
    if p.account is None {
        Some(ClientError::Missing(MissingField::Account))
    } else if p.user is None {
        Some(ClientError::Missing(MissingField::User))
    } else if p.private_key is None && p.password is None {
        Some(ClientError::Missing(MissingField::Credential))
    } else {
        None
    }
}

/// The two errors are the same kind with the same cause.
pub open spec fn same_error(a: ClientError, b: ClientError) -> bool {
    match (a, b) {
        (ClientError::Missing(x), ClientError::Missing(y)) => x == y,
        (ClientError::UnsupportedKeyFormat(x), ClientError::UnsupportedKeyFormat(y)) => x == y,
        _ => false,
    }
}

impl Profile {
    /// The settings of the native-protocol driver: every field the profile has, the
    /// private key trimmed.
    pub fn native_settings(&self) -> (r: NativeSettings)
        ensures
            opt_text(r.account) == opt_text(self.account),
            opt_text(r.username) == opt_text(self.user),
            opt_text(r.password) == opt_text(self.password),
            opt_text(r.jwt_private_key) == opt_trimmed(self.private_key),
            opt_text(r.role) == opt_text(self.role),
            opt_text(r.warehouse) == opt_text(self.warehouse),
            opt_text(r.database) == opt_text(self.database),
            opt_text(r.schema) == opt_text(self.schema),
            r.keep_session_alive == self.client_session_keep_alive,
    {
        let jwt_private_key = match &self.private_key {
            Some(k) => Some(trim_whitespace(k.as_str())),
            None => None,
        };
        NativeSettings {
            account: clone_opt(&self.account),
            username: clone_opt(&self.user),
            password: clone_opt(&self.password),
            jwt_private_key,
            role: clone_opt(&self.role),
            warehouse: clone_opt(&self.warehouse),
            database: clone_opt(&self.database),
            schema: clone_opt(&self.schema),
            keep_session_alive: self.client_session_keep_alive,
        }
    }

    /// The settings of the row-oriented backend. It needs an account and a user, and
    /// takes an encrypted private key (unlocked with the password) before a password;
    /// an unencrypted key is refused, and so is key text that is no PEM key.
    pub fn row_settings(&self) -> (r: Result<RowSettings, ClientError>)
        ensures
            r is Err <==> row_refusal(*self) is Some,
            r matches Err(e) ==> same_error(e, row_refusal(*self)->0),
            r matches Ok(s) ==> {
                &&& Some(s.account@) == opt_text(self.account)
                &&& Some(s.user@) == opt_text(self.user)
                &&& opt_text(s.role) == opt_text(self.role)
                &&& opt_text(s.warehouse) == opt_text(self.warehouse)
                &&& opt_text(s.database) == opt_text(self.database)
                &&& opt_text(s.schema) == opt_text(self.schema)
                &&& match s.auth {
                    RowAuth::KeyPair { encrypted_pem, key_password } => {
                        &&& opt_trimmed(self.private_key) == Some(encrypted_pem@)
                        &&& key_password@ == match self.password {
                            Some(p) => p@,
                            None => Seq::empty(),
                        }
                    },
                    RowAuth::Password(p) => self.private_key is None && opt_text(self.password)
                        == Some(p@),
                }
            },
    {
        let account = match &self.account {
            Some(a) => a.clone(),
            None => {
                return Err(ClientError::Missing(MissingField::Account));
            },
        };
        let user = match &self.user {
            Some(u) => u.clone(),
            None => {
                return Err(ClientError::Missing(MissingField::User));
            },
        };
        let auth = match &self.private_key {
            Some(k) => {
                let key = trim_whitespace(k.as_str());
                if text_contains(key.as_str(), "ENCRYPTED PRIVATE KEY") {
                    let key_password = match &self.password {
                        Some(p) => p.clone(),
                        None => String::new(),
                    };
                    RowAuth::KeyPair { encrypted_pem: key, key_password }
                } else if text_contains(key.as_str(), "PRIVATE KEY") {
                    return Err(ClientError::UnsupportedKeyFormat(KeyProblem::Unencrypted));
                } else {
                    return Err(ClientError::UnsupportedKeyFormat(KeyProblem::Unrecognized));
                }
            },
            None => match &self.password {
                Some(p) => RowAuth::Password(p.clone()),
                None => {
                    return Err(ClientError::Missing(MissingField::Credential));
                },
            },
        };
        Ok(
            RowSettings {
                account,
                user,
                auth,
                role: clone_opt(&self.role),
                warehouse: clone_opt(&self.warehouse),
                database: clone_opt(&self.database),
                schema: clone_opt(&self.schema),
            },
        )
    }

    /// The settings of the API backends. They need an account and a user, and take
    /// a private key, trimmed, before a password.
    pub fn api_settings(&self) -> (r: Result<ApiSettings, ClientError>)
        ensures
            r is Err <==> api_refusal(*self) is Some,
            r matches Err(e) ==> same_error(e, api_refusal(*self)->0),
            r matches Ok(s) ==> {
                &&& Some(s.account@) == opt_text(self.account)
                &&& Some(s.user@) == opt_text(self.user)
                &&& opt_text(s.role) == opt_text(self.role)
                &&& opt_text(s.warehouse) == opt_text(self.warehouse)
                &&& opt_text(s.database) == opt_text(self.database)
                &&& opt_text(s.schema) == opt_text(self.schema)
                &&& match s.auth {
                    ApiAuth::Certificate(k) => opt_trimmed(self.private_key) == Some(k@),
                    ApiAuth::Password(p) => self.private_key is None && opt_text(self.password)
                        == Some(p@),
                }
            },
    {
        let account = match &self.account {
            Some(a) => a.clone(),
            None => {
                return Err(ClientError::Missing(MissingField::Account));
            },
        };
        let user = match &self.user {
            Some(u) => u.clone(),
            None => {
                return Err(ClientError::Missing(MissingField::User));
            },
        };
        let auth = match &self.private_key {
            Some(k) => ApiAuth::Certificate(trim_whitespace(k.as_str())),
            None => match &self.password {
                Some(p) => ApiAuth::Password(p.clone()),
                None => {
                    return Err(ClientError::Missing(MissingField::Credential));
                },
            },
        };
        Ok(
            ApiSettings {
                account,
                user,
                auth,
                role: clone_opt(&self.role),
                warehouse: clone_opt(&self.warehouse),
                database: clone_opt(&self.database),
                schema: clone_opt(&self.schema),
            },
        )
    }
}

} // verus!
