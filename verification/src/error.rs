//! The library's error type.
use vstd::prelude::*;

verus! {

#[verifier::external_type_specification]
#[verifier::external_body]
pub struct ExJsonError(serde_json::Error);

#[derive(Debug)]
pub enum XboardError {
    /// A configuration document has a shape the library cannot work with.
    Config(String),
    /// YAML text could not be parsed or written.
    Yaml(serde_yaml::Error),
    /// JSON text could not be parsed or written.
    Json(serde_json::Error),
    /// The kernel could not be brought up or torn down.
    Kernel(String),
    /// A kernel call was made while no kernel is attached.
    KernelNotRunning,
    /// The backend refused the credentials (HTTP 401 / 403).
    Unauthorized,
    /// The backend answered with a failure envelope.
    ApiFailure { status_code: u16, message: String },
    /// Anything else, with a message.
    Other(String),
}

/// `Display` of a `serde_yaml::Error`.
#[verifier::external_body]
pub(crate) fn yaml_error_text(e: &serde_yaml::Error) -> String {
    format!("{e}")
}

/// `Display` of a `serde_json::Error`.
#[verifier::external_body]
pub(crate) fn json_error_text(e: &serde_json::Error) -> String {
    format!("{e}")
}

impl XboardError {
    /// A one-line description of the error, for messages that embed it.
    pub fn describe(&self) -> (r: String)
        ensures
            self matches XboardError::Config(m) ==> r@ == m@,
            self matches XboardError::Kernel(m) ==> r@ == m@,
            self matches XboardError::Other(m) ==> r@ == m@,
            self matches XboardError::ApiFailure { message, .. } ==> r@ == message@,
            self is KernelNotRunning ==> r@ == "kernel not running"@,
            self is Unauthorized ==> r@ == "unauthorized"@,
    {
        match self {
            XboardError::Config(m) => m.clone(),
            XboardError::Yaml(e) => yaml_error_text(e),
            XboardError::Json(e) => json_error_text(e),
            XboardError::Kernel(m) => m.clone(),
            XboardError::KernelNotRunning => "kernel not running".to_owned(),
            XboardError::Unauthorized => "unauthorized".to_owned(),
            XboardError::ApiFailure { message, .. } => message.clone(),
            XboardError::Other(m) => m.clone(),
        }
    }
}

} // verus!
