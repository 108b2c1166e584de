use vstd::prelude::*;

verus! {

/// The failure kinds of the proxy, each carrying a human-readable detail.
#[derive(Debug)]
pub enum ProxyError {
    Unauthorized(String),
    Forbidden(String),
    NotFound(String),
    /// A transport or unexpected failure talking to an upstream registry.
    Upstream(String),
    Cache(String),
    Internal(String),
}

/// One lowercase hexadecimal digit.
pub open spec fn hex_digit(d: int) -> Seq<char> {
    "0123456789abcdef"@.subrange(d, d + 1)
}

/// The code point of a character.
pub open spec fn code_of(c: char) -> int {
    c as int
}

/// A control character: code point below 32.
pub open spec fn is_control(c: char) -> bool {
    code_of(c) < 32
}

/// How one character stands in a JSON string: `"` and `\` escaped, the short escapes
/// for backspace, form feed, newline, carriage return and tab, `\u00XX` for the other
/// control characters, and every other character as it is.
pub open spec fn json_char(c: char) -> Seq<char> {
    if c == '"' {
        "\\\""@
    } else if c == '\\' {
        "\\\\"@
    } else if c == '\u{8}' {
        "\\b"@
    } else if c == '\u{c}' {
        "\\f"@
    } else if c == '\n' {
        "\\n"@
    } else if c == '\r' {
        "\\r"@
    } else if c == '\t' {
        "\\t"@
    } else if is_control(c) {
        "\\u00"@ + hex_digit(code_of(c) / 16) + hex_digit(code_of(c) % 16)
    } else {
        seq![c]
    }
}

/// The characters of `s`, each as it stands in a JSON string.
pub open spec fn json_text(s: Seq<char>) -> Seq<char>
    decreases s.len(),
{
    if s.len() == 0 {
        Seq::empty()
    } else {
        json_text(s.drop_last()) + json_char(s.last())
    }
}

/// Text of `s` as a JSON string literal, quotes and escapes included.
pub open spec fn json_string_of(s: Seq<char>) -> Seq<char> {
    "\""@ + json_text(s) + "\""@
}

/// Relies on `serde_json::to_string` applied to a `&str`: a quote, each character
/// escaped as `json_char` says, and a quote.
#[verifier::external_body]
fn json_string(s: &str) -> (r: String)
    ensures
        r@ == json_string_of(s@),
{
    serde_json::to_string(s).unwrap_or_default()
}

/// The JSON error envelope around an already-encoded message literal.
pub open spec fn envelope_of(message_json: Seq<char>) -> Seq<char> {
    "{\"errors\":[{\"code\":\"PROXY_ERROR\",\"message\":"@ + message_json + "}]}"@
}

impl ProxyError {
    /// The HTTP status of each kind.
    pub open spec fn spec_status(&self) -> u16 {
        match self {
            ProxyError::Unauthorized(_) => 401,
            ProxyError::Forbidden(_) => 403,
            ProxyError::NotFound(_) => 404,
            ProxyError::Upstream(_) => 502,
            ProxyError::Cache(_) => 500,
            ProxyError::Internal(_) => 500,
        }
    }

    /// The message shown to the client.
    pub open spec fn spec_message(&self) -> Seq<char> {
        match self {
            ProxyError::Unauthorized(m) => m@,
            ProxyError::Forbidden(m) => m@,
            ProxyError::NotFound(m) => m@,
            ProxyError::Upstream(m) => "Upstream registry error: "@ + m@,
            ProxyError::Cache(m) => m@,
            ProxyError::Internal(m) => m@,
        }
    }

    pub fn status_code(&self) -> (r: u16)
        ensures
            r == self.spec_status(),
    {
        match self {
            ProxyError::Unauthorized(_) => 401,
            ProxyError::Forbidden(_) => 403,
            ProxyError::NotFound(_) => 404,
            ProxyError::Upstream(_) => 502,
            ProxyError::Cache(_) => 500,
            ProxyError::Internal(_) => 500,
        }
    }

    pub fn message(&self) -> (r: String)
        ensures
            r@ == self.spec_message(),
    {
        match self {
            ProxyError::Unauthorized(m) => m.clone(),
            ProxyError::Forbidden(m) => m.clone(),
            ProxyError::NotFound(m) => m.clone(),
            ProxyError::Upstream(m) => crate::text::join2("Upstream registry error: ", m.as_str()),
            ProxyError::Cache(m) => m.clone(),
            ProxyError::Internal(m) => m.clone(),
        }
    }

    /// The response body: `{"errors":[{"code":"PROXY_ERROR","message":<message>}]}`.
    pub fn body(&self) -> (r: String)
        ensures
            r@ == envelope_of(json_string_of(self.spec_message())),
    {
        let m = self.message();
        let encoded = json_string(m.as_str());
        crate::text::join3(
            "{\"errors\":[{\"code\":\"PROXY_ERROR\",\"message\":",
            encoded.as_str(),
            "}]}",
        )
    }
}

} // verus!
