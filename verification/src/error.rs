//! Error taxonomy of the engine.

use vstd::prelude::*;

verus! {

/// Every failure the engine reports, each with its description.
#[derive(Debug, Clone)]
pub enum NuClawError {
    Database { message: String },
    Container { message: String },
    WhatsApp { message: String },
    Telegram { message: String },
    Config { message: String },
    FileSystem { message: String },
    Validation { message: String },
    Timeout { operation: String },
    Auth { message: String },
    Scheduler { message: String },
}

/// The category label a variant renders with.
pub open spec fn error_prefix(e: NuClawError) -> Seq<char> {
    match e {
        NuClawError::Database { .. } => "Database error: "@,
        NuClawError::Container { .. } => "Container error: "@,
        NuClawError::WhatsApp { .. } => "WhatsApp error: "@,
        NuClawError::Telegram { .. } => "Telegram error: "@,
        NuClawError::Config { .. } => "Configuration error: "@,
        NuClawError::FileSystem { .. } => "File system error: "@,
        NuClawError::Validation { .. } => "Validation error: "@,
        NuClawError::Timeout { .. } => "Timeout error: "@,
        NuClawError::Auth { .. } => "Authentication error: "@,
        NuClawError::Scheduler { .. } => "Scheduler error: "@,
    }
}

/// The description carried by a variant.
pub open spec fn error_detail(e: NuClawError) -> Seq<char> {
    match e {
        NuClawError::Database { message } => message@,
        NuClawError::Container { message } => message@,
        NuClawError::WhatsApp { message } => message@,
        NuClawError::Telegram { message } => message@,
        NuClawError::Config { message } => message@,
        NuClawError::FileSystem { message } => message@,
        NuClawError::Validation { message } => message@,
        NuClawError::Timeout { operation } => operation@,
        NuClawError::Auth { message } => message@,
        NuClawError::Scheduler { message } => message@,
    }
}

impl NuClawError {
    /// The rendered description: the category label followed by the detail.
    pub fn message(&self) -> (r: String)
        ensures
            r@ == error_prefix(*self) + error_detail(*self),
    {
        let (prefix, detail): (&str, &String) = match self {
            NuClawError::Database { message } => ("Database error: ", message),
            NuClawError::Container { message } => ("Container error: ", message),
            NuClawError::WhatsApp { message } => ("WhatsApp error: ", message),
            NuClawError::Telegram { message } => ("Telegram error: ", message),
            NuClawError::Config { message } => ("Configuration error: ", message),
            NuClawError::FileSystem { message } => ("File system error: ", message),
            NuClawError::Validation { message } => ("Validation error: ", message),
            NuClawError::Timeout { operation } => ("Timeout error: ", operation),
            NuClawError::Auth { message } => ("Authentication error: ", message),
            NuClawError::Scheduler { message } => ("Scheduler error: ", message),
        };
        let mut s = prefix.to_owned();
        s.append(detail.as_str());
        s
    }
}

/// The usual result shape of the engine's fallible calls.
pub type NuClawResult<T> = Result<T, NuClawError>;

} // verus!
