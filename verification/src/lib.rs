pub mod embeddings;
pub mod error;
pub mod json;
pub mod reader;
pub mod rerank;

use vstd::prelude::*;

pub use crate::embeddings::{
    Doc, Embedding, EmbeddingType, EmbeddingTypeEnum, EmbeddingsInput, EmbeddingsModel,
    EmbeddingsRequest, EmbeddingsResponse, ImageDoc, InputShape, TextDoc,
};
pub use crate::error::{ConstructionError, HttpError, JinaError};
pub use crate::json::{Json, JsonSpec};
pub use crate::reader::{ReaderData, ReaderRequest, ReaderResponse, ReaderReturnFormat, ReaderUsage};
pub use crate::rerank::{
    DocumentType, QueryType, RankedDocument, RankedResult, RerankRequest, RerankResponse,
    RerankerModel,
};

verus! {

broadcast use vstd::seq::group_seq_axioms, vstd::std_specs::vec::group_vec_axioms;

use vstd::string::StrSliceExecFns;
use vstd::string::StringExecFns;

use crate::json::{json_text, spec_parse_json, parse_json};

/// The vendor's endpoint, used when no base URL is configured.
pub const BASE_URL: &'static str = "https://api.jina.ai";

/// Token accounting attached to every successful response.
#[derive(Debug, Clone, Copy, PartialEq, Eq, Structural)]
pub struct Usage {
    /// Tokens consumed by the prompt part of the call.
    pub prompt_tokens: i32,
    /// Tokens consumed by the call in all.
    pub total_tokens: i32,
}

/// One outbound call, ready for a transport: the method, the full URL, the
/// headers in the order they are set, and the JSON body.
#[derive(Debug)]
pub struct PreparedRequest {
    pub method: String,
    pub url: String,
    pub headers: Vec<(String, String)>,
    pub body: String,
}

pub struct PreparedRequestV {
    pub method: Seq<char>,
    pub url: Seq<char>,
    pub headers: Seq<(Seq<char>, Seq<char>)>,
    pub body: Seq<char>,
}

pub open spec fn headers_view(h: Seq<(String, String)>) -> Seq<(Seq<char>, Seq<char>)> {
    Seq::new(h.len(), |i: int| (h[i].0@, h[i].1@))
}

/// One more header at the end extends the view by that pair.
pub proof fn lemma_headers_view_snoc(h: Seq<(String, String)>)
    requires
        h.len() > 0,
    ensures
        headers_view(h) == headers_view(h.drop_last()) + seq![(h.last().0@, h.last().1@)],
{
    assert(headers_view(h) =~= headers_view(h.drop_last()) + seq![(h.last().0@, h.last().1@)]);
}

impl View for PreparedRequest {
    type V = PreparedRequestV;

    open spec fn view(&self) -> PreparedRequestV {
        (PreparedRequestV {
            method: self.method@,
            url: self.url@,
            headers: headers_view(self.headers@),
            body: self.body@,
        })
    }
}

/// The stateless client: a credential and the base URL. The transport that
/// carries a `PreparedRequest` to the wire lives outside this crate.
#[derive(Debug)]
pub struct Jina {
    pub api_key: String,
    pub base_url: String,
}

/// Collects the construction options before a `Jina` exists.
#[derive(Debug)]
pub struct JinaBuilder {
    pub api_key: Option<String>,
    pub base_url: Option<String>,
}

/// The texts of a run of strings.
pub open spec fn strs_view(v: Seq<String>) -> Seq<Seq<char>> {
    Seq::new(v.len(), |i: int| v[i]@)
}

/// Whether a character may stand in a header value: control characters,
/// including the delete character, are refused.
pub open spec fn is_header_value_char(c: char) -> bool {
    c as int >= 0x20 && c as int != 0x7f
}

pub open spec fn is_header_safe(s: Seq<char>) -> bool {
    forall|i: int| 0 <= i < s.len() ==> is_header_value_char(s[i])
}

#[verifier::loop_isolation(false)]
pub fn check_header_safe(s: &str) -> (b: bool)
    ensures
        b == is_header_safe(s@),
{
    let n = s.unicode_len();
    let mut i: usize = 0;
    while i < n
        invariant
            0 <= i <= n,
            forall|k: int| 0 <= k < i ==> is_header_value_char(s@[k]),
        decreases n - i,
    {
        let u = s.get_char(i) as u32;
        if u < 0x20 || u == 0x7f {
            return false;
        }
        i = i + 1;
    }
    true
}

/// The headers every endpoint sends: the bearer credential and the body type.
pub open spec fn default_headers_spec(key: Seq<char>) -> Seq<(Seq<char>, Seq<char>)> {
    seq![("Authorization"@, "Bearer "@ + key), ("Content-Type"@, "application/json"@)]
}

impl Jina {
    pub fn builder() -> (r: JinaBuilder)
        ensures
            r.api_key is None,
            r.base_url is None,
    {
        JinaBuilder { api_key: None, base_url: None }
    }

    /// The header set every endpoint starts from: bearer credential first,
    /// then the body type.
    /// A credential holding a character that cannot stand in a header value
    /// is refused here, before anything reaches a transport.
    pub(crate) fn default_headers(&self) -> (r: Result<Vec<(String, String)>, JinaError>)
        ensures
            (match r {
                Ok(h) => is_header_safe(self.api_key@) && headers_view(h@)
                    == default_headers_spec(self.api_key@),
                Err(e) => !is_header_safe(self.api_key@) && (e matches
                    JinaError::ConstructionError(ConstructionError::InvalidHeaderValue(n))
                    && n@ == "Authorization"@),
            }),
    {
        if !check_header_safe(self.api_key.as_str()) {
            return Err(
                JinaError::ConstructionError(
                    ConstructionError::InvalidHeaderValue(String::from_str("Authorization")),
                ),
            );
        }
        let mut auth = String::from_str("Bearer ");
        auth.append(self.api_key.as_str());
        let mut h: Vec<(String, String)> = Vec::new();
        h.push((String::from_str("Authorization"), auth));
        h.push((String::from_str("Content-Type"), String::from_str("application/json")));
        proof {
            assert(headers_view(h@) =~= default_headers_spec(self.api_key@));
        }
        Ok(h)
    }

    /// Builds the one call every endpoint makes: POST to the base URL plus
    /// `path`, the default headers, and `body` written as its JSON text.
    pub(crate) fn post(&self, path: &str, body: &Json) -> (r: Result<PreparedRequest, JinaError>)
        ensures
            (match r {
                Ok(p) => is_header_safe(self.api_key@) && p@.method == "POST"@ && p@.url
                    == self.base_url@ + path@ && p@.headers == default_headers_spec(self.api_key@)
                    && p@.body == json_text(body@),
                Err(e) => !is_header_safe(self.api_key@) && (e matches
                    JinaError::ConstructionError(ConstructionError::InvalidHeaderValue(n))
                    && n@ == "Authorization"@),
            }),
    {
        let headers = match self.default_headers() {
            Ok(h) => h,
            Err(e) => {
                return Err(e);
            },
        };
        let mut url = String::new();
        url.append(self.base_url.as_str());
        url.append(path);
        Ok(
            PreparedRequest {
                method: String::from_str("POST"),
                url,
                headers,
                body: crate::json::json_to_string(body),
            },
        )
    }

    /// Sorts a received status and body: any status outside the success
    /// range becomes an `HttpError` carrying the payload exactly where the
    /// body parses as JSON; a success status must parse, and a body that
    /// does not is a hard failure of the call.
    pub fn handle_response(status: u16, body: &str) -> (r: Result<Json, JinaError>)
        ensures
            (match r {
                Ok(j) => is_success(status) && spec_parse_json(body@) == Some(j@),
                Err(e) => match e {
                    JinaError::HttpError(h) => !is_success(status) && h.status == status && (
                    match h.payload {
                        Some(p) => spec_parse_json(body@) == Some(p@),
                        None => spec_parse_json(body@) is None,
                    }),
                    JinaError::DeserializationError(_) => is_success(status) && spec_parse_json(
                        body@,
                    ) is None,
                    _ => false,
                },
            }),
    {
        if !(200 <= status && status < 300) {
            let payload = parse_json(body);
            return Err(JinaError::HttpError(HttpError { status, payload }));
        }
        match parse_json(body) {
            Some(j) => Ok(j),
            None => Err(
                JinaError::DeserializationError(
                    String::from_str("success status with a malformed body"),
                ),
            ),
        }
    }
}

/// The success range of a status line.
pub open spec fn is_success(status: u16) -> bool {
    200 <= status < 300
}

impl JinaBuilder {
    pub fn with_api_key(self, api_key: &str) -> (r: Self)
        ensures
            r.api_key matches Some(k) && k@ == api_key@,
            r.base_url == self.base_url,
    {
        JinaBuilder { api_key: Some(String::from_str(api_key)), base_url: self.base_url }
    }

    pub fn with_base_url(self, base_url: &str) -> (r: Self)
        ensures
            r.base_url matches Some(u) && u@ == base_url@,
            r.api_key == self.api_key,
    {
        JinaBuilder { api_key: self.api_key, base_url: Some(String::from_str(base_url)) }
    }

    /// Collapses the two credential sources - the explicit value first, the
    /// environment-sourced fallback second - to the one the client keeps,
    /// and fails before any call when both are absent. The caller reads the
    /// fallback variable and hands it in; this crate touches no environment.
    pub fn build(self, env_api_key: Option<String>) -> (r: Result<Jina, JinaError>)
        ensures
            (match r {
                Ok(c) => (self.api_key is Some || env_api_key is Some) && c.api_key@ == (
                if self.api_key is Some {
                    self.api_key.unwrap()@
                } else {
                    env_api_key.unwrap()@
                }) && c.base_url@ == (
                if self.base_url is Some {
                    self.base_url.unwrap()@
                } else {
                    BASE_URL@
                }),
                Err(e) => self.api_key is None && env_api_key is None && (e matches
                    JinaError::ConstructionError(ConstructionError::MissingCredential)),
            }),
    {
        let api_key = match self.api_key {
            Some(k) => k,
            None => match env_api_key {
                Some(k) => k,
                None => {
                    return Err(
                        JinaError::ConstructionError(ConstructionError::MissingCredential),
                    );
                },
            },
        };
        let base_url = match self.base_url {
            Some(u) => u,
            None => String::from_str(BASE_URL),
        };
        Ok(Jina { api_key, base_url })
    }
}

} // verus!
