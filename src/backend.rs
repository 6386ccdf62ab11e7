use vstd::prelude::*;
use crate::text::{occurs_at, seq_contains};

verus! {

/// The client implementations a query can run through.
#[derive(Clone, Copy, Debug, PartialEq, Eq, Structural)]
pub enum Backend {
    /// The native-protocol driver; yields columnar batches.
    Adbc,
    /// The row-oriented client; yields materialized rows.
    ConnectorRs,
    /// The API client, expecting columnar results.
    ApiArrow,
    /// The API client, expecting JSON results.
    ApiJson,
}

pub open spec fn backend_name(b: Backend) -> Seq<char> {
    match b {
        Backend::Adbc => "adbc"@,
        Backend::ConnectorRs => "snowflake-connector-rs"@,
        Backend::ApiArrow => "snowflake-api-arrow"@,
        Backend::ApiJson => "snowflake-api-json"@,
    }
}

/// A field of the profile that a backend needs and did not find.
#[derive(Clone, Copy, Debug, PartialEq, Eq, Structural)]
pub enum MissingField {
    Account,
    User,
    /// Neither a password nor a private key.
    Credential,
}

/// Why a private key cannot be used by the row-oriented backend.
#[derive(Clone, Copy, Debug, PartialEq, Eq, Structural)]
pub enum KeyProblem {
    /// A PEM private key that is not encrypted.
    Unencrypted,
    /// Text that is no PEM private key at all.
    Unrecognized,
}

/// The two forms a query result can take.
#[derive(Clone, Copy, Debug, PartialEq, Eq, Structural)]
pub enum ResultShape {
    Columnar,
    Json,
}

/// What goes wrong before or after the drivers do their work.
#[derive(Debug)]
pub enum ClientError {
    Missing(MissingField),
    UnsupportedKeyFormat(KeyProblem),
    /// The result came in the other shape than the selected backend handles.
    ResultShapeMismatch { expected: ResultShape },
    UnknownClient(String),
    NoIterations,
}

pub open spec fn shape_mismatch_message(expected: ResultShape) -> Seq<char> {
    match expected {
        ResultShape::Columnar => "Expected Arrow result but got JSON. Use "@ + backend_name(
            Backend::ApiJson,
        ) + " client for JSON results, or ensure your query returns Arrow format (SELECT queries typically return Arrow)"@,
        ResultShape::Json => "Expected JSON result but got Arrow. Use "@ + backend_name(
            Backend::ApiArrow,
        ) + " client for Arrow results, or use a non-SELECT query (like SHOW, DESCRIBE) which typically return JSON"@,
    }
}

pub open spec fn error_message(e: ClientError) -> Seq<char> {
    match e {
        ClientError::Missing(MissingField::Account) => "Account is required"@,
        ClientError::Missing(MissingField::User) => "User is required"@,
        ClientError::Missing(MissingField::Credential) => "Either password or private_key is required for authentication"@,
        ClientError::UnsupportedKeyFormat(KeyProblem::Unencrypted) => backend_name(Backend::ConnectorRs) + " KeyPair authentication requires an encrypted private key (ENCRYPTED PRIVATE KEY). The provided key appears to be unencrypted. Please use an encrypted key or use password authentication instead."@,
        ClientError::UnsupportedKeyFormat(KeyProblem::Unrecognized) => "Invalid private key format"@,
        ClientError::ResultShapeMismatch { expected } => shape_mismatch_message(expected),
        ClientError::UnknownClient(name) => "Unknown client: "@ + name@ + ". Supported clients: adbc, snowflake-connector-rs, snowflake-api-arrow, snowflake-api-json"@,
        ClientError::NoIterations => "At least one iteration is required"@,
    }
}

impl ClientError {
    /// The message shown to the operator.
    pub fn message(&self) -> (r: String)
        ensures
            r@ == error_message(*self),
    {
        match self {
            ClientError::Missing(MissingField::Account) => String::from_str("Account is required"),
            ClientError::Missing(MissingField::User) => String::from_str("User is required"),
            ClientError::Missing(MissingField::Credential) => String::from_str(
                "Either password or private_key is required for authentication",
            ),
            ClientError::UnsupportedKeyFormat(KeyProblem::Unencrypted) => {
                let mut r = String::from_str(Backend::ConnectorRs.name());
                r.append(
                    " KeyPair authentication requires an encrypted private key (ENCRYPTED PRIVATE KEY). The provided key appears to be unencrypted. Please use an encrypted key or use password authentication instead.",
                );
                r
            },
            ClientError::UnsupportedKeyFormat(KeyProblem::Unrecognized) => String::from_str(
                "Invalid private key format",
            ),
            ClientError::ResultShapeMismatch { expected: ResultShape::Columnar } => {
                let mut r = String::from_str("Expected Arrow result but got JSON. Use ");
                r.append(Backend::ApiJson.name());
                r.append(
                    " client for JSON results, or ensure your query returns Arrow format (SELECT queries typically return Arrow)",
                );
                r
            },
            ClientError::ResultShapeMismatch { expected: ResultShape::Json } => {
                let mut r = String::from_str("Expected JSON result but got Arrow. Use ");
                r.append(Backend::ApiArrow.name());
                r.append(
                    " client for Arrow results, or use a non-SELECT query (like SHOW, DESCRIBE) which typically return JSON",
                );
                r
            },
            ClientError::UnknownClient(name) => {
                let mut r = String::from_str("Unknown client: ");
                r.append(name.as_str());
                r.append(
                    ". Supported clients: adbc, snowflake-connector-rs, snowflake-api-arrow, snowflake-api-json",
                );
                r
            },
            ClientError::NoIterations => String::from_str("At least one iteration is required"),
        }
    }
}

fn same_text(a: &str, b: &str) -> (r: bool)
    ensures
        r == (a@ == b@),
{
    String::from_str(a) == String::from_str(b)
}

impl Backend {
    /// The name by which the backend is selected.
    pub fn name(&self) -> (r: &'static str)
        ensures
            r@ == backend_name(*self),
    {
        match self {
            Backend::Adbc => "adbc",
            Backend::ConnectorRs => "snowflake-connector-rs",
            Backend::ApiArrow => "snowflake-api-arrow",
            Backend::ApiJson => "snowflake-api-json",
        }
    }

    /// The backend selected by `name`; an unknown name is an error that lists the known ones.
    pub fn parse(name: &str) -> (r: Result<Backend, ClientError>)
        ensures
            r matches Ok(b) ==> backend_name(b) == name@,
            r is Err <==> forall|b: Backend| backend_name(b) != name@,
            r matches Err(e) ==> e matches ClientError::UnknownClient(n) && n@ == name@,
    {
        if same_text(name, "adbc") {
            assert(backend_name(Backend::Adbc) == name@);
            Ok(Backend::Adbc)
        } else if same_text(name, "snowflake-connector-rs") {
            assert(backend_name(Backend::ConnectorRs) == name@);
            Ok(Backend::ConnectorRs)
        } else if same_text(name, "snowflake-api-arrow") {
            assert(backend_name(Backend::ApiArrow) == name@);
            Ok(Backend::ApiArrow)
        } else if same_text(name, "snowflake-api-json") {
            assert(backend_name(Backend::ApiJson) == name@);
            Ok(Backend::ApiJson)
        } else {
            assert forall|b: Backend| backend_name(b) != name@ by {
                match b {
                    Backend::Adbc => {},
                    Backend::ConnectorRs => {},
                    Backend::ApiArrow => {},
                    Backend::ApiJson => {},
                }
            }
            Err(ClientError::UnknownClient(String::from_str(name)))
        }
    }

    /// The request timeout, in seconds, that the backend sets on its client; `None`
    /// leaves the driver's own default in force.
    pub fn request_timeout_secs(&self) -> (r: Option<u64>)
        ensures
            r == (if *self == Backend::ConnectorRs {
                Some(30u64)
            } else {
                None
            }),
    {
        match self {
            Backend::ConnectorRs => Some(30),
            _ => None,
        }
    }
}

/// The backend that handles the other shape than `expected`.
pub open spec fn alternative_for(expected: ResultShape) -> Backend {
    match expected {
        ResultShape::Columnar => Backend::ApiJson,
        ResultShape::Json => Backend::ApiArrow,
    }
}

/// A result of the wrong shape is reported with a message that names the backend
/// that handles the shape that came.
pub proof fn lemma_mismatch_names_alternative(expected: ResultShape)
    ensures
        seq_contains(
            error_message(ClientError::ResultShapeMismatch { expected }),
            backend_name(alternative_for(expected)),
        ),
{
    let msg = error_message(ClientError::ResultShapeMismatch { expected });
    let name = backend_name(alternative_for(expected));
    let pre = match expected {
        ResultShape::Columnar => "Expected Arrow result but got JSON. Use "@,
        ResultShape::Json => "Expected JSON result but got Arrow. Use "@,
    };
    assert(msg.subrange(pre.len() as int, (pre.len() + name.len()) as int) =~= name);
    assert(occurs_at(msg, name, pre.len() as int));
}

} // verus!
