//! The transport's immutable configuration, resolved once at startup.
//!
//! The caller reads the process environment and hands the raw values in;
//! the library applies the defaults: the endpoint of the public API, a
//! fixed model name, a timeout of 120 seconds. A missing API key is a
//! fatal configuration error. The actual HTTP connection is made outside
//! the library, from the values this type exposes.

use vstd::prelude::*;
use vstd::string::StrSliceExecFns;
use vstd::string::StringExecFns;

use crate::data::ChatConversation;
use crate::error::AppError;
use crate::error::ConfigurationError;
use crate::request::build_request_body;
use crate::request::request_body_text;

verus! {

/// Whether `c` is a decimal digit.
pub open spec fn is_digit(c: char) -> bool {
    48 <= c as u32 <= 57
}

/// The value of one decimal digit character.
pub open spec fn digit_val(c: char) -> nat {
    (c as u32 - 48) as nat
}

/// Whether every character of `s` is a decimal digit.
pub open spec fn all_digits(s: Seq<char>) -> bool {
    forall|i: int| 0 <= i < s.len() ==> is_digit(s[i])
}

/// The number the digit characters of `s` spell, most significant first.
pub open spec fn digits_val(s: Seq<char>) -> nat
    decreases s.len(),
{
    if s.len() == 0 {
        0
    } else {
        digits_val(s.drop_last()) * 10 + digit_val(s.last())
    }
}

/// What parsing `s` as a `u64` yields: the spelled value when `s` is an
/// optional plus sign followed by one or more digits and the value fits,
/// and nothing otherwise.
pub open spec fn parse_u64_text(s: Seq<char>) -> Option<u64> {
    let digits = if s.len() >= 1 && s[0] == '+' {
        s.skip(1)
    } else {
        s
    };
    if digits.len() > 0 && all_digits(digits) && digits_val(digits) <= u64::MAX as nat {
        Some(digits_val(digits) as u64)
    } else {
        None
    }
}

/// A longer digit string spells at least as large a number.
proof fn lemma_digits_val_prefix(s: Seq<char>, k: int)
    requires
        0 <= k <= s.len(),
    ensures
        digits_val(s.take(k)) <= digits_val(s),
    decreases s.len() - k,
{
    if k == s.len() {
        assert(s.take(k) =~= s);
    } else {
        lemma_digits_val_prefix(s, k + 1);
        assert(s.take(k + 1).drop_last() =~= s.take(k));
    }
}

/// Parses a decimal `u64`: an optional plus sign followed by digits.
pub fn parse_u64(s: &str) -> (r: Option<u64>)
    ensures
        r == parse_u64_text(s@),
{
    let n = s.unicode_len();
    let start: usize = if n >= 1 && s.get_char(0) == '+' {
        1
    } else {
        0
    };
    let ghost digits: Seq<char> = s@.skip(start as int);
    proof {
        if start == 0 {
            assert(digits =~= s@);
        }
    }
    if start == n {
        return None;
    }
    let mut acc: u64 = 0;
    let mut j: usize = start;
    proof {
        assert(digits.take(0) =~= Seq::<char>::empty());
    }
    while j < n
        invariant
            start <= j <= n,
            n == s@.len(),
            digits == s@.skip(start as int),
            digits == (if s@.len() >= 1 && s@[0] == '+' {
                s@.skip(1)
            } else {
                s@
            }),
            all_digits(digits.take(j - start)),
            acc as nat == digits_val(digits.take(j - start)),
        decreases n - j,
    {
        let c = s.get_char(j);
        let u = c as u32;
        proof {
            assert(digits[j - start] == c);
            assert(digits.take(j - start + 1).drop_last() =~= digits.take(j - start));
            assert(digits.take(j - start + 1).last() == c);
        }
        if u < 48 || u > 57 {
            proof {
                assert(!is_digit(digits[j - start]));
            }
            return None;
        }
        let d: u64 = (u - 48) as u64;
        let widened = match acc.checked_mul(10) {
            Some(t) => t.checked_add(d),
            None => None,
        };
        match widened {
            Some(next) => {
                acc = next;
            },
            None => {
                proof {
                    assert(digits_val(digits.take(j - start + 1)) > u64::MAX as nat);
                    lemma_digits_val_prefix(digits, j - start + 1);
                }
                return None;
            },
        }
        j = j + 1;
    }
    proof {
        assert(digits.take(n - start) =~= digits);
    }
    Some(acc)
}

/// The mathematical value of an [`LlmClient`]: its credential, endpoint,
/// model and timeout.
pub struct ClientView {
    pub api_key: Seq<char>,
    pub base_url: Seq<char>,
    pub model: Seq<char>,
    pub timeout_seconds: u64,
}

/// The immutable configuration of the streaming transport.
#[derive(Debug)]
pub struct LlmClient {
    api_key: String,
    base_url: String,
    model: String,
    timeout_seconds: u64,
}

impl View for LlmClient {
    type V = ClientView;

    closed spec fn view(&self) -> ClientView {
        ClientView {
            api_key: self.api_key@,
            base_url: self.base_url@,
            model: self.model@,
            timeout_seconds: self.timeout_seconds,
        }
    }
}

/// The endpoint used when the environment names none.
pub open spec fn base_url_of(v: Option<String>) -> Seq<char> {
    match v {
        Some(u) => u@,
        None => "https://api.openai.com/v1"@,
    }
}

/// The model used when the environment names none.
pub open spec fn model_of(v: Option<String>) -> Seq<char> {
    match v {
        Some(m) => m@,
        None => "gpt-3.5-turbo"@,
    }
}

/// The timeout used for the given environment value: the parsed number of
/// seconds, or 120 where the value is absent or does not parse.
pub open spec fn timeout_of(v: Option<String>) -> u64 {
    match v {
        Some(s) => match parse_u64_text(s@) {
            Some(t) => t,
            None => 120u64,
        },
        None => 120u64,
    }
}

impl LlmClient {
    /// Resolves the configuration from the raw environment values. Only
    /// the API key is required; everything else takes its default.
    pub fn from_env_values(
        api_key: Option<String>,
        base_url: Option<String>,
        model: Option<String>,
        timeout_seconds: Option<String>,
    ) -> (r: Result<LlmClient, AppError>)
        ensures
            api_key is None ==> (r matches Err(e) && e matches AppError::Configuration(
                ConfigurationError::MissingEnvVar { variable },
            ) && variable@ == "OPENAI_API_KEY"@),
            api_key matches Some(k) ==> (r matches Ok(c) && c@.api_key == k@ && c@.base_url
                == base_url_of(base_url) && c@.model == model_of(model) && c@.timeout_seconds
                == timeout_of(timeout_seconds)),
    {
        let key = match api_key {
            Some(k) => k,
            None => {
                return Err(AppError::missing_env_var(String::from_str("OPENAI_API_KEY")));
            },
        };
        let url = match base_url {
            Some(u) => u,
            None => String::from_str("https://api.openai.com/v1"),
        };
        let model_name = match model {
            Some(m) => m,
            None => String::from_str("gpt-3.5-turbo"),
        };
        let timeout: u64 = match timeout_seconds {
            Some(s) => match parse_u64(s.as_str()) {
                Some(t) => t,
                None => 120,
            },
            None => 120,
        };
        Ok(
            LlmClient {
                api_key: key,
                base_url: url,
                model: model_name,
                timeout_seconds: timeout,
            },
        )
    }

    /// The credential the transport authenticates with.
    pub fn api_key(&self) -> (r: &str)
        ensures
            r@ == self@.api_key,
    {
        self.api_key.as_str()
    }

    /// The endpoint base URL.
    pub fn base_url(&self) -> (r: &str)
        ensures
            r@ == self@.base_url,
    {
        self.base_url.as_str()
    }

    /// The model named in every request.
    pub fn model(&self) -> (r: &str)
        ensures
            r@ == self@.model,
    {
        self.model.as_str()
    }

    /// The connection time budget, in seconds.
    pub fn timeout_seconds(&self) -> (r: u64)
        ensures
            r == self@.timeout_seconds,
    {
        self.timeout_seconds
    }

    /// The URL the completion request is posted to.
    pub fn completions_url(&self) -> (r: String)
        ensures
            r@ == self@.base_url + "/chat/completions"@,
    {
        let mut url = self.base_url.clone();
        url.append("/chat/completions");
        url
    }

    /// The value of the request's authorization header.
    pub fn authorization_header(&self) -> (r: String)
        ensures
            r@ == "Bearer "@ + self@.api_key,
    {
        let mut header = String::from_str("Bearer ");
        header.append(self.api_key.as_str());
        header
    }

    /// The request body for one turn over the given conversation, with
    /// this client's model and streaming switched on.
    pub fn request_body(
        &self,
        conversation: &ChatConversation,
        max_tokens: Option<u32>,
        temperature_tenths: Option<u32>,
    ) -> (body: String)
        ensures
            body@ == request_body_text(
                conversation@,
                self@.model,
                match max_tokens {
                    Some(m) => m,
                    None => 1000u32,
                },
                match temperature_tenths {
                    Some(t) => t,
                    None => 7u32,
                },
            ),
    {
        build_request_body(conversation, self.model.as_str(), max_tokens, temperature_tenths)
    }
}

} // verus!
