//! The settings of one listener, and their validation.

use vstd::prelude::*;
use vstd::string::StringExecFns;
use vstd::utf8::encode_utf8;
use crate::error::Error;
use crate::headers::texts;
use crate::size::convert_human_size;
use crate::size::human_size;
use crate::size::DEFAULT_MAX_CONTENT_LEN;
use crate::wire::is_field_value;
use crate::text::same_text;
use crate::wire::is_method;
use crate::wire::is_method_char;
use crate::wire::parse_value;
use crate::wire::parses_as_method;

verus! {

/// Where the certificate and the private key of a TLS listener are kept.
#[derive(Debug, Clone)]
pub struct Tls {
    pub cert_file: Option<String>,
    pub priv_key_file: Option<String>,
}

/// A path that is present and not empty.
pub open spec fn names_a_file(path: Option<String>) -> bool {
    path matches Some(p) && p@.len() > 0
}

impl Tls {
    /// TLS is configured: both paths are present and neither is empty.
    pub open spec fn set(&self) -> bool {
        names_a_file(self.cert_file) && names_a_file(self.priv_key_file)
    }

    /// Whether TLS is configured.
    pub fn is_set(&self) -> (r: bool)
        ensures
            r == self.set(),
    {
        let cert: bool = match &self.cert_file {
            Some(p) => !p.as_str().is_empty(),
            None => false,
        };
        let key: bool = match &self.priv_key_file {
            Some(p) => !p.as_str().is_empty(),
            None => false,
        };
        cert && key
    }
}

/// The cross-origin policy of a listener. A part that is `None` is not
/// restricted or not announced.
#[derive(Debug, Clone)]
pub struct Cors {
    pub allowed_origins: Option<Vec<String>>,
    pub allowed_headers: Option<Vec<String>>,
    pub allowed_methods: Option<Vec<String>>,
    pub exposed_headers: Option<Vec<String>>,
    pub max_age_secs: Option<u64>,
}

/// The settings of one listener.
#[derive(Debug, Clone)]
pub struct ServiceSettings {
    /// The address to bind, as `host:port`. A listener cannot start without.
    pub address: Option<String>,
    /// The value of the `Cache-Control` header of every response.
    pub cache_control: Option<String>,
    /// Whether every method but GET and HEAD is turned away.
    pub readonly_mode: Option<bool>,
    pub cors: Cors,
    pub tls: Tls,
    /// How long to wait for the dispatch callback, in milliseconds.
    pub timeout_ms: Option<u64>,
    /// The largest request body, as `convert_human_size` reads it.
    pub max_content_len: Option<String>,
}

/// The methods that a policy lists; none if it lists none.
pub open spec fn listed_methods(methods: Option<Vec<String>>) -> Seq<Seq<char>> {
    match methods {
        Some(m) => texts(m@),
        None => Seq::empty(),
    }
}

/// One of the methods that HTTP defines, as it is written: in capital
/// letters.
pub open spec fn is_http_method(s: Seq<char>) -> bool {
    ||| s == "GET"@
    ||| s == "HEAD"@
    ||| s == "POST"@
    ||| s == "PUT"@
    ||| s == "DELETE"@
    ||| s == "CONNECT"@
    ||| s == "OPTIONS"@
    ||| s == "TRACE"@
    ||| s == "PATCH"@
}

/// Each method that HTTP defines is a method token.
pub proof fn lemma_http_method_is_token(s: Seq<char>)
    requires
        is_http_method(s),
    ensures
        is_method(s),
{
    reveal_strlit("GET");
    reveal_strlit("HEAD");
    reveal_strlit("POST");
    reveal_strlit("PUT");
    reveal_strlit("DELETE");
    reveal_strlit("CONNECT");
    reveal_strlit("OPTIONS");
    reveal_strlit("TRACE");
    reveal_strlit("PATCH");
    assert(s.len() <= 7);
    assert(s.len() > 0 ==> is_method_char(s[0]));
    assert(s.len() > 1 ==> is_method_char(s[1]));
    assert(s.len() > 2 ==> is_method_char(s[2]));
    assert(s.len() > 3 ==> is_method_char(s[3]));
    assert(s.len() > 4 ==> is_method_char(s[4]));
    assert(s.len() > 5 ==> is_method_char(s[5]));
    assert(s.len() > 6 ==> is_method_char(s[6]));
}

/// Whether the token names a method: the `http` crate has to take it for a
/// method, and it has to be one of the methods that HTTP defines.
pub fn is_valid_method(token: &str) -> (r: bool)
    ensures
        r == is_http_method(token@),
{
    proof {
        if is_http_method(token@) {
            lemma_http_method_is_token(token@);
        }
    }
    parses_as_method(token) && (same_text(token, "GET") || same_text(token, "HEAD") || same_text(
        token,
        "POST",
    ) || same_text(token, "PUT") || same_text(token, "DELETE") || same_text(token, "CONNECT")
        || same_text(token, "OPTIONS") || same_text(token, "TRACE") || same_text(token, "PATCH"))
}

/// The position of the first token that is no method, or the number of
/// tokens if all of them are methods.
pub open spec fn first_bad_method(tokens: Seq<Seq<char>>) -> int
    decreases tokens.len(),
{
    if tokens.len() == 0 {
        0
    } else if !is_http_method(tokens.first()) {
        0
    } else {
        1 + first_bad_method(tokens.drop_first())
    }
}

/// The message for a token that is no method.
pub open spec fn bad_method_text(token: Seq<char>) -> Seq<char> {
    "method: '"@ + token + "'"@
}

/// The message for a `Cache-Control` value that cannot be sent.
pub open spec fn bad_cache_control_text(value: Seq<char>) -> Seq<char> {
    "Invalid Cache Control header : '"@ + value + "'"@
}

/// `first_bad_method` is where the first token that is no method stands.
pub proof fn lemma_first_bad_method(tokens: Seq<Seq<char>>, i: int)
    requires
        0 <= i <= tokens.len(),
        forall|k: int| 0 <= k < i ==> is_http_method(#[trigger] tokens[k]),
        i < tokens.len() ==> !is_http_method(tokens[i]),
    ensures
        first_bad_method(tokens) == i,
    decreases tokens.len(),
{
    if i > 0 {
        let t = tokens.drop_first();
        assert(is_http_method(tokens[0]));
        assert forall|k: int| 0 <= k < i - 1 implies is_http_method(#[trigger] t[k]) by {
            assert(t[k] == tokens[k + 1]);
        }
        if i < tokens.len() {
            assert(t[i - 1] == tokens[i]);
        }
        lemma_first_bad_method(t, i - 1);
    }
}

/// Looks for a token that names no method. Gives the first one, or `None`
/// if every token is one of the methods that HTTP defines.
pub fn check_methods(tokens: &Vec<String>) -> (bad: Option<usize>)
    ensures
        match bad {
            Some(i) => i == first_bad_method(texts(tokens@)) && i < tokens.len(),
            None => first_bad_method(texts(tokens@)) == tokens.len(),
        },
{
    let mut i: usize = 0;
    while i < tokens.len()
        invariant
            i <= tokens.len(),
            forall|k: int| 0 <= k < i ==> is_http_method(#[trigger] texts(tokens@)[k]),
        decreases tokens.len() - i,
    {
        if !is_valid_method(tokens[i].as_str()) {
            proof {
                lemma_first_bad_method(texts(tokens@), i as int);
            }
            return Some(i);
        }
        i = i + 1;
    }
    proof {
        lemma_first_bad_method(texts(tokens@), i as int);
    }
    None
}

impl ServiceSettings {
    /// Settings with nothing configured.
    pub fn new() -> (r: Self)
        ensures
            r.address is None,
            r.cache_control is None,
            r.readonly_mode is None,
            r.cors.allowed_origins is None,
            r.cors.allowed_headers is None,
            r.cors.allowed_methods is None,
            r.cors.exposed_headers is None,
            r.cors.max_age_secs is None,
            r.tls.cert_file is None,
            r.tls.priv_key_file is None,
            r.timeout_ms is None,
            r.max_content_len is None,
    {
        ServiceSettings {
            address: None,
            cache_control: None,
            readonly_mode: None,
            cors: Cors {
                allowed_origins: None,
                allowed_headers: None,
                allowed_methods: None,
                exposed_headers: None,
                max_age_secs: None,
            },
            tls: Tls { cert_file: None, priv_key_file: None },
            timeout_ms: None,
            max_content_len: None,
        }
    }

    /// Whether requests that may change something are turned away.
    pub open spec fn read_only(&self) -> bool {
        self.readonly_mode == Some(true)
    }

    /// What `content_limit` answers.
    pub open spec fn limit(&self) -> Result<u64, Seq<char>> {
        match self.max_content_len {
            Some(text) => human_size(text@),
            None => Ok(DEFAULT_MAX_CONTENT_LEN),
        }
    }

    /// The largest request body in bytes: the default where none is
    /// configured, else what the configured text denotes.
    pub fn content_limit(&self) -> (r: Result<u64, Error>)
        ensures
            match self.limit() {
                Ok(n) => r == Ok::<u64, Error>(n),
                Err(text) => r matches Err(Error::Settings(m)) && m@ == text,
            },
    {
        match &self.max_content_len {
            Some(text) => convert_human_size(text.as_str()),
            None => Ok(DEFAULT_MAX_CONTENT_LEN),
        }
    }

    /// The first token among the CORS methods that is no method.
    pub open spec fn bad_method(&self) -> Seq<char> {
        listed_methods(self.cors.allowed_methods)[first_bad_method(
            listed_methods(self.cors.allowed_methods),
        )]
    }

    /// The CORS policy lists only methods.
    pub open spec fn methods_ok(&self) -> bool {
        first_bad_method(listed_methods(self.cors.allowed_methods)) == listed_methods(
            self.cors.allowed_methods,
        ).len()
    }

    /// The `Cache-Control` value, if there is one, can be sent as a header.
    pub open spec fn cache_control_ok(&self) -> bool {
        self.cache_control matches Some(v) ==> is_field_value(encode_utf8(v@))
    }

    /// The settings can be used for a listener.
    pub open spec fn valid(&self) -> bool {
        &&& self.methods_ok()
        &&& self.cache_control_ok()
        &&& self.limit() is Ok
    }

    /// Checks the settings. The first fault found is reported: a token
    /// among the CORS methods that is no method, by name; then a
    /// `Cache-Control` value that cannot be sent; then a content length
    /// limit that cannot be read or is out of range.
    pub fn validate(&self) -> (r: Result<(), Error>)
        ensures
            r is Ok <==> self.valid(),
            !self.methods_ok() ==> r is Err && r->Err_0.is_invalid_parameter(
                bad_method_text(self.bad_method()),
            ),
            self.methods_ok() && !self.cache_control_ok() ==> r is Err && r->Err_0.is_settings(
                bad_cache_control_text(self.cache_control->0@),
            ),
            self.methods_ok() && self.cache_control_ok() && self.limit() is Err ==> r is Err
                && r->Err_0.is_settings(self.limit()->Err_0),
    {
        match &self.cors.allowed_methods {
            Some(tokens) => {
                match check_methods(tokens) {
                    Some(i) => {
                        return Err(bad_method(tokens[i].as_str()));
                    },
                    None => {},
                }
            },
            None => {},
        }
        match &self.cache_control {
            Some(v) => {
                match parse_value(v.clone()) {
                    Some(_) => {},
                    None => {
                        let m: String = String::from_str("Invalid Cache Control header : '").concat(
                            v.as_str(),
                        ).concat("'");
                        return Err(Error::Settings(m));
                    },
                }
            },
            None => {},
        }
        match self.content_limit() {
            Ok(_) => Ok(()),
            Err(e) => Err(e),
        }
    }
}

/// The error for a token that is no method.
pub fn bad_method(token: &str) -> (e: Error)
    ensures
        e.is_invalid_parameter(bad_method_text(token@)),
{
    Error::InvalidParameter(String::from_str("method: '").concat(token).concat("'"))
}

} // verus!
