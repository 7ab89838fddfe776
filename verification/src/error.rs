//! The error taxonomy of the plugin system, with the transience
//! classification that every retry loop relies on, the category tags
//! used for observability, and the user-facing message of each kind.

use vstd::prelude::*;
use vstd::string::StringExecFns;
use crate::strutil::{
    chars_of, contains_chars, contains_str, has_substring, lower_chars, to_lower_chars,
};

verus! {

/// The OS-level reason of an I/O failure, as far as the transience
/// classification reads it. Reasons outside the transient set are `Other`.
#[derive(Clone, Copy, Debug, PartialEq, Eq, Structural)]
pub enum IoErrorKind {
    PermissionDenied,
    TimedOut,
    Interrupted,
    WouldBlock,
    ConnectionRefused,
    ConnectionAborted,
    NotConnected,
    Other,
}

/// Every failure the plugin system can report.
#[derive(Clone, Debug)]
pub enum PluginError {
    /// The named plugin is not in the registry.
    NotFound { name: String },
    /// A dynamic module could not be opened.
    LoadingFailed { message: String },
    /// A capability's own execution failed.
    ExecutionFailed { message: String },
    /// The configuration store misbehaved.
    ConfigError { message: String },
    /// The named plugin is disabled and may not run.
    PluginDisabled { name: String },
    /// A module was opened but did not register a capability.
    RegistrationFailed { message: String },
    /// An I/O failure, with the OS reason it carries.
    IoError { kind: IoErrorKind, message: String },
    /// Data could not be serialized or deserialized.
    SerializationError { message: String },
    /// A network-level failure.
    NetworkError { message: String },
    /// An operation ran past its deadline.
    TimeoutError { operation: String },
    /// A resource was exhausted.
    ResourceExhausted { resource: String },
    /// A failure expected to clear up on its own.
    TemporaryFailure { message: String },
}

/// Result type used throughout the plugin system.
pub type PluginResult<T> = Result<T, PluginError>;

/// The I/O reasons that are worth retrying: permission denied, timed
/// out, interrupted, would-block, and connection-establishment failures.
pub open spec fn transient_io_kind(k: IoErrorKind) -> bool {
    match k {
        IoErrorKind::PermissionDenied => true,
        IoErrorKind::TimedOut => true,
        IoErrorKind::Interrupted => true,
        IoErrorKind::WouldBlock => true,
        IoErrorKind::ConnectionRefused => true,
        IoErrorKind::ConnectionAborted => true,
        IoErrorKind::NotConnected => true,
        IoErrorKind::Other => false,
    }
}

/// A configuration error is transient only when its message carries a
/// lock/busy/in-use/temporary marker.
pub open spec fn config_message_transient(msg: Seq<char>) -> bool {
    ||| has_substring(msg, "temporary"@)
    ||| has_substring(msg, "lock"@)
    ||| has_substring(msg, "busy"@)
    ||| has_substring(msg, "in use"@)
}

/// The transience classification: which errors a retry loop may retry.
pub open spec fn is_transient_spec(e: &PluginError) -> bool {
    match e {
        PluginError::IoError { kind, .. } => transient_io_kind(*kind),
        PluginError::ConfigError { message } => config_message_transient(message@),
        PluginError::NetworkError { .. } => true,
        PluginError::TimeoutError { .. } => true,
        PluginError::ResourceExhausted { .. } => true,
        PluginError::TemporaryFailure { .. } => true,
        _ => false,
    }
}

/// The markers that make an opaque capability error message count as
/// transient, matched case-insensitively on the folded message.
pub open spec fn execution_message_transient(msg: Seq<char>) -> bool {
    let folded = lower_chars(msg);
    ||| has_substring(folded, "timeout"@)
    ||| has_substring(folded, "temporary"@)
    ||| has_substring(folded, "busy"@)
    ||| has_substring(folded, "resource temporarily unavailable"@)
    ||| has_substring(folded, "would block"@)
    ||| has_substring(folded, "interrupted"@)
}

/// The category tag of each error kind, for logging and metrics.
pub open spec fn category_spec(e: &PluginError) -> Seq<char> {
    match e {
        PluginError::NotFound { .. } => "not_found"@,
        PluginError::LoadingFailed { .. } => "loading_failed"@,
        PluginError::ExecutionFailed { .. } => "execution_failed"@,
        PluginError::ConfigError { .. } => "config_error"@,
        PluginError::PluginDisabled { .. } => "plugin_disabled"@,
        PluginError::RegistrationFailed { .. } => "registration_failed"@,
        PluginError::IoError { .. } => "io_error"@,
        PluginError::SerializationError { .. } => "serialization_error"@,
        PluginError::NetworkError { .. } => "network_error"@,
        PluginError::TimeoutError { .. } => "timeout_error"@,
        PluginError::ResourceExhausted { .. } => "resource_exhausted"@,
        PluginError::TemporaryFailure { .. } => "temporary_failure"@,
    }
}

/// The user-facing message of each error kind, with its recovery hint.
pub open spec fn user_message_spec(e: &PluginError) -> Seq<char> {
    match e {
        PluginError::NotFound { name } => "Plugin '"@ + name@
            + "' not found. Use 'list' command to see available plugins."@,
        PluginError::LoadingFailed { message } => "Failed to load plugin: "@ + message@
            + ". Check plugin file integrity and permissions."@,
        PluginError::ExecutionFailed { message } => "Plugin execution failed: "@ + message@
            + ". Check plugin input format and try again."@,
        PluginError::ConfigError { message } => "Configuration error: "@ + message@
            + ". Check configuration file permissions and format."@,
        PluginError::PluginDisabled { name } => "Plugin '"@ + name@
            + "' is disabled. Use 'enable "@ + name@ + "' to enable it first."@,
        PluginError::RegistrationFailed { message } => "Plugin registration failed: "@
            + message@ + ". Plugin may be corrupted or incompatible."@,
        PluginError::IoError { message, .. } => "I/O error: "@ + message@
            + ". Check file permissions and disk space."@,
        PluginError::SerializationError { message } => "Data format error: "@ + message@
            + ". Check input data format."@,
        PluginError::NetworkError { message } => "Network error: "@ + message@
            + ". Check network connectivity and try again."@,
        PluginError::TimeoutError { operation } => "Operation timed out: "@ + operation@
            + ". Try again or increase timeout settings."@,
        PluginError::ResourceExhausted { resource } => "Resource exhausted: "@ + resource@
            + ". Free up resources and try again."@,
        PluginError::TemporaryFailure { message } => "Temporary failure: "@ + message@
            + ". Please try again in a moment."@,
    }
}

impl PluginError {
    /// Build an ExecutionFailed error from a capability's message.
    pub fn execution_failed(message: &str) -> (r: PluginError)
        ensures
            (r matches PluginError::ExecutionFailed { message: m } && m@ == message@),
    {
        PluginError::ExecutionFailed { message: message.to_owned() }
    }

    /// Build a ConfigError.
    pub fn config_error(message: &str) -> (r: PluginError)
        ensures
            (r matches PluginError::ConfigError { message: m } && m@ == message@),
    {
        PluginError::ConfigError { message: message.to_owned() }
    }

    /// Build a RegistrationFailed error.
    pub fn registration_failed(message: &str) -> (r: PluginError)
        ensures
            (r matches PluginError::RegistrationFailed { message: m } && m@ == message@),
    {
        PluginError::RegistrationFailed { message: message.to_owned() }
    }

    /// Build a NetworkError.
    pub fn network_error(message: &str) -> (r: PluginError)
        ensures
            (r matches PluginError::NetworkError { message: m } && m@ == message@),
    {
        PluginError::NetworkError { message: message.to_owned() }
    }

    /// Build a TimeoutError for the named operation.
    pub fn timeout_error(operation: &str) -> (r: PluginError)
        ensures
            (r matches PluginError::TimeoutError { operation: o } && o@ == operation@),
    {
        PluginError::TimeoutError { operation: operation.to_owned() }
    }

    /// Build a ResourceExhausted error for the named resource.
    pub fn resource_exhausted(resource: &str) -> (r: PluginError)
        ensures
            (r matches PluginError::ResourceExhausted { resource: s } && s@ == resource@),
    {
        PluginError::ResourceExhausted { resource: resource.to_owned() }
    }

    /// Build a TemporaryFailure.
    pub fn temporary_failure(message: &str) -> (r: PluginError)
        ensures
            (r matches PluginError::TemporaryFailure { message: m } && m@ == message@),
    {
        PluginError::TemporaryFailure { message: message.to_owned() }
    }

    /// Whether this error is transient and worth retrying.
    pub fn is_transient(&self) -> (r: bool)
        ensures
            r == is_transient_spec(self),
    {
        match self {
            PluginError::IoError { kind, .. } => match kind {
                IoErrorKind::Other => false,
                _ => true,
            },
            PluginError::ConfigError { message } => {
                let m = message.as_str();
                contains_str(m, "temporary") || contains_str(m, "lock")
                    || contains_str(m, "busy") || contains_str(m, "in use")
            },
            PluginError::NetworkError { .. } => true,
            PluginError::TimeoutError { .. } => true,
            PluginError::ResourceExhausted { .. } => true,
            PluginError::TemporaryFailure { .. } => true,
            _ => false,
        }
    }

    /// The user-facing message with its recovery suggestion.
    pub fn user_friendly_message(&self) -> (r: String)
        ensures
            r@ == user_message_spec(self),
    {
        match self {
            PluginError::NotFound { name } => String::from_str("Plugin '")
                .concat(name.as_str())
                .concat("' not found. Use 'list' command to see available plugins."),
            PluginError::LoadingFailed { message } => String::from_str("Failed to load plugin: ")
                .concat(message.as_str())
                .concat(". Check plugin file integrity and permissions."),
            PluginError::ExecutionFailed { message } => String::from_str(
                "Plugin execution failed: ",
            ).concat(message.as_str()).concat(". Check plugin input format and try again."),
            PluginError::ConfigError { message } => String::from_str("Configuration error: ")
                .concat(message.as_str())
                .concat(". Check configuration file permissions and format."),
            PluginError::PluginDisabled { name } => String::from_str("Plugin '")
                .concat(name.as_str())
                .concat("' is disabled. Use 'enable ")
                .concat(name.as_str())
                .concat("' to enable it first."),
            PluginError::RegistrationFailed { message } => String::from_str(
                "Plugin registration failed: ",
            ).concat(message.as_str()).concat(". Plugin may be corrupted or incompatible."),
            PluginError::IoError { message, .. } => String::from_str("I/O error: ")
                .concat(message.as_str())
                .concat(". Check file permissions and disk space."),
            PluginError::SerializationError { message } => String::from_str(
                "Data format error: ",
            ).concat(message.as_str()).concat(". Check input data format."),
            PluginError::NetworkError { message } => String::from_str("Network error: ")
                .concat(message.as_str())
                .concat(". Check network connectivity and try again."),
            PluginError::TimeoutError { operation } => String::from_str("Operation timed out: ")
                .concat(operation.as_str())
                .concat(". Try again or increase timeout settings."),
            PluginError::ResourceExhausted { resource } => String::from_str(
                "Resource exhausted: ",
            ).concat(resource.as_str()).concat(". Free up resources and try again."),
            PluginError::TemporaryFailure { message } => String::from_str("Temporary failure: ")
                .concat(message.as_str())
                .concat(". Please try again in a moment."),
        }
    }

    /// The category tag for logging and metrics.
    pub fn category(&self) -> (r: &'static str)
        ensures
            r@ == category_spec(self),
    {
        match self {
            PluginError::NotFound { .. } => "not_found",
            PluginError::LoadingFailed { .. } => "loading_failed",
            PluginError::ExecutionFailed { .. } => "execution_failed",
            PluginError::ConfigError { .. } => "config_error",
            PluginError::PluginDisabled { .. } => "plugin_disabled",
            PluginError::RegistrationFailed { .. } => "registration_failed",
            PluginError::IoError { .. } => "io_error",
            PluginError::SerializationError { .. } => "serialization_error",
            PluginError::NetworkError { .. } => "network_error",
            PluginError::TimeoutError { .. } => "timeout_error",
            PluginError::ResourceExhausted { .. } => "resource_exhausted",
            PluginError::TemporaryFailure { .. } => "temporary_failure",
        }
    }
}

/// Whether an opaque capability error message counts as transient for
/// retry purposes: the loose, case-insensitive marker match that the
/// registry's execution retry loop applies.
pub fn is_execution_error_transient(message: &str) -> (r: bool)
    ensures
        r == execution_message_transient(message@),
{
    let cs = chars_of(message);
    let folded = to_lower_chars(&cs);
    let mut found = contains_chars(&folded, &chars_of("timeout"));
    if !found {
        found = contains_chars(&folded, &chars_of("temporary"));
    }
    if !found {
        found = contains_chars(&folded, &chars_of("busy"));
    }
    if !found {
        found = contains_chars(&folded, &chars_of("resource temporarily unavailable"));
    }
    if !found {
        found = contains_chars(&folded, &chars_of("would block"));
    }
    if !found {
        found = contains_chars(&folded, &chars_of("interrupted"));
    }
    found
}

/// The markers that make a server-side network failure recoverable.
pub open spec fn recoverable_network_message(msg: Seq<char>) -> bool {
    let folded = lower_chars(msg);
    ||| has_substring(folded, "address already in use"@)
    ||| has_substring(folded, "connection refused"@)
    ||| has_substring(folded, "network unreachable"@)
    ||| has_substring(folded, "temporary failure"@)
}

/// Whether a server error message names a recoverable network condition.
pub fn is_recoverable_network_error(message: &str) -> (r: bool)
    ensures
        r == recoverable_network_message(message@),
{
    let cs = chars_of(message);
    let folded = to_lower_chars(&cs);
    let mut found = contains_chars(&folded, &chars_of("address already in use"));
    if !found {
        found = contains_chars(&folded, &chars_of("connection refused"));
    }
    if !found {
        found = contains_chars(&folded, &chars_of("network unreachable"));
    }
    if !found {
        found = contains_chars(&folded, &chars_of("temporary failure"));
    }
    found
}

/// The transience classification is a pure function of the error's kind
/// and content: the four environmental kinds are always transient, the
/// four structural kinds never are, and a configuration error is
/// transient exactly when its message carries one of the stated markers.
pub proof fn lemma_transient_classification(e: &PluginError)
    ensures
        (e matches PluginError::TimeoutError { .. }) ==> is_transient_spec(e),
        (e matches PluginError::ResourceExhausted { .. }) ==> is_transient_spec(e),
        (e matches PluginError::NetworkError { .. }) ==> is_transient_spec(e),
        (e matches PluginError::TemporaryFailure { .. }) ==> is_transient_spec(e),
        (e matches PluginError::NotFound { .. }) ==> !is_transient_spec(e),
        (e matches PluginError::ExecutionFailed { .. }) ==> !is_transient_spec(e),
        (e matches PluginError::PluginDisabled { .. }) ==> !is_transient_spec(e),
        (e matches PluginError::RegistrationFailed { .. }) ==> !is_transient_spec(e),
        e matches PluginError::ConfigError { message } ==> (is_transient_spec(e)
            <==> config_message_transient(message@)),
{
}

} // verus!
