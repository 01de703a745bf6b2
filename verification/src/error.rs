//! The library's error types.
//!
//! Configuration errors are fatal at startup; network errors end the
//! current turn only; an unknown persona is reported together with the list
//! of available ones. Causes coming from outside the library arrive as
//! plain values (a status code, a reason text).

use vstd::prelude::*;

use crate::text::chars_to_string;
use crate::text::dec_digits;
use crate::text::push_str_chars;
use crate::text::push_u64;

verus! {

/// A configuration defect found at startup.
#[derive(Debug)]
pub enum ConfigurationError {
    /// A required environment value is absent.
    MissingEnvVar { variable: String },
    /// The persona source could not be loaded.
    FileLoad { reason: String },
    /// The HTTP client could not be built.
    HttpClient { reason: String },
}

/// A failure of the transport during one turn.
#[derive(Debug)]
pub enum NetworkError {
    /// The request itself failed before a status was received.
    Request { reason: String },
    /// The endpoint answered with a non-2xx status and this body.
    ApiResponse { status: u16, body: String },
    /// The response could not be read.
    ResponseParsing { reason: String },
    /// The request exceeded its time budget.
    Timeout { seconds: u64 },
}

/// A persona lookup that matched nothing.
#[derive(Debug)]
pub enum AgentError {
    /// `name` matched no canonical name and no alias; `available` lists
    /// what the registry holds.
    NotFound { name: String, available: String },
}

/// The error type of the library.
#[derive(Debug)]
pub enum AppError {
    Configuration(ConfigurationError),
    Network(NetworkError),
    Agent(AgentError),
}

/// The display text of a configuration error.
pub open spec fn configuration_message(e: ConfigurationError) -> Seq<char> {
    match e {
        ConfigurationError::MissingEnvVar { variable } => "Missing environment variable: "@
            + variable@,
        ConfigurationError::FileLoad { reason } => "Failed to load configuration file: "@
            + reason@,
        ConfigurationError::HttpClient { reason } => "HTTP client configuration failed: "@
            + reason@,
    }
}

/// The display text of a network error.
pub open spec fn network_message(e: NetworkError) -> Seq<char> {
    match e {
        NetworkError::Request { reason } => "HTTP request failed: "@ + reason@,
        NetworkError::ApiResponse { status, body } => "API request failed with status "@
            + dec_digits(status as nat) + ": "@ + body@,
        NetworkError::ResponseParsing { reason } => "Failed to parse API response: "@ + reason@,
        NetworkError::Timeout { seconds } => "Request timeout after "@ + dec_digits(
            seconds as nat,
        ) + " seconds"@,
    }
}

/// The display text of a persona lookup failure.
pub open spec fn agent_message(e: AgentError) -> Seq<char> {
    match e {
        AgentError::NotFound { name, available } => "Agent '"@ + name@
            + "' not found. Available agents: "@ + available@,
    }
}

/// The display text of an error, with its kind named first.
pub open spec fn app_message(e: AppError) -> Seq<char> {
    match e {
        AppError::Configuration(c) => "Configuration error: "@ + configuration_message(c),
        AppError::Network(n) => "Network error: "@ + network_message(n),
        AppError::Agent(a) => "Agent error: "@ + agent_message(a),
    }
}

impl AppError {
    /// A configuration error for an absent environment value.
    pub fn missing_env_var(variable: String) -> (e: AppError)
        ensures
            e matches AppError::Configuration(ConfigurationError::MissingEnvVar { variable: v })
                && v@ == variable@,
    {
        AppError::Configuration(ConfigurationError::MissingEnvVar { variable })
    }

    /// A configuration error for an HTTP client that could not be built.
    pub fn http_client_error(reason: String) -> (e: AppError)
        ensures
            e matches AppError::Configuration(ConfigurationError::HttpClient { reason: r })
                && r@ == reason@,
    {
        AppError::Configuration(ConfigurationError::HttpClient { reason })
    }

    /// A network error for a non-2xx response.
    pub fn api_response_error(status: u16, body: String) -> (e: AppError)
        ensures
            e matches AppError::Network(NetworkError::ApiResponse { status: s, body: b })
                && s == status && b@ == body@,
    {
        AppError::Network(NetworkError::ApiResponse { status, body })
    }

    /// A network error for a response that could not be read.
    pub fn response_parsing_error(reason: String) -> (e: AppError)
        ensures
            e matches AppError::Network(NetworkError::ResponseParsing { reason: r })
                && r@ == reason@,
    {
        AppError::Network(NetworkError::ResponseParsing { reason })
    }

    /// A network error for a request that failed outright.
    pub fn request_error(reason: String) -> (e: AppError)
        ensures
            e matches AppError::Network(NetworkError::Request { reason: r }) && r@ == reason@,
    {
        AppError::Network(NetworkError::Request { reason })
    }

    /// A network error for a request that ran out of time.
    pub fn timeout_error(seconds: u64) -> (e: AppError)
        ensures
            e matches AppError::Network(NetworkError::Timeout { seconds: s }) && s == seconds,
    {
        AppError::Network(NetworkError::Timeout { seconds })
    }

    /// A lookup failure for an unknown persona.
    pub fn agent_not_found(name: String, available: String) -> (e: AppError)
        ensures
            e matches AppError::Agent(AgentError::NotFound { name: n, available: a })
                && n@ == name@ && a@ == available@,
    {
        AppError::Agent(AgentError::NotFound { name, available })
    }

    /// A configuration error for a persona source that could not be loaded.
    pub fn config_load_error(reason: String) -> (e: AppError)
        ensures
            e matches AppError::Configuration(ConfigurationError::FileLoad { reason: r })
                && r@ == reason@,
    {
        AppError::Configuration(ConfigurationError::FileLoad { reason })
    }

    /// The display text of this error.
    pub fn message(&self) -> (r: String)
        ensures
            r@ == app_message(*self),
    {
        let mut out: Vec<char> = Vec::new();
        match self {
            AppError::Configuration(c) => {
                push_str_chars(&mut out, "Configuration error: ");
                match c {
                    ConfigurationError::MissingEnvVar { variable } => {
                        push_str_chars(&mut out, "Missing environment variable: ");
                        push_str_chars(&mut out, variable.as_str());
                    },
                    ConfigurationError::FileLoad { reason } => {
                        push_str_chars(&mut out, "Failed to load configuration file: ");
                        push_str_chars(&mut out, reason.as_str());
                    },
                    ConfigurationError::HttpClient { reason } => {
                        push_str_chars(&mut out, "HTTP client configuration failed: ");
                        push_str_chars(&mut out, reason.as_str());
                    },
                }
            },
            AppError::Network(n) => {
                push_str_chars(&mut out, "Network error: ");
                match n {
                    NetworkError::Request { reason } => {
                        push_str_chars(&mut out, "HTTP request failed: ");
                        push_str_chars(&mut out, reason.as_str());
                    },
                    NetworkError::ApiResponse { status, body } => {
                        push_str_chars(&mut out, "API request failed with status ");
                        push_u64(&mut out, *status as u64);
                        push_str_chars(&mut out, ": ");
                        push_str_chars(&mut out, body.as_str());
                    },
                    NetworkError::ResponseParsing { reason } => {
                        push_str_chars(&mut out, "Failed to parse API response: ");
                        push_str_chars(&mut out, reason.as_str());
                    },
                    NetworkError::Timeout { seconds } => {
                        push_str_chars(&mut out, "Request timeout after ");
                        push_u64(&mut out, *seconds);
                        push_str_chars(&mut out, " seconds");
                    },
                }
            },
            AppError::Agent(a) => {
                push_str_chars(&mut out, "Agent error: ");
                match a {
                    AgentError::NotFound { name, available } => {
                        push_str_chars(&mut out, "Agent '");
                        push_str_chars(&mut out, name.as_str());
                        push_str_chars(&mut out, "' not found. Available agents: ");
                        push_str_chars(&mut out, available.as_str());
                    },
                }
            },
        }
        proof {
            assert(out@ =~= app_message(*self));
        }
        chars_to_string(&out)
    }
}

} // verus!
