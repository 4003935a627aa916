use vstd::prelude::*;

use crate::error::{ConstructionError, JinaError};
use crate::json::{
    dec_digits, json_text, jview_fields, lemma_jview_fields, spec_get, spec_int_of,
    spec_parse_json, get_field, get_int, u64_to_string, Json, JsonSpec,
};
use crate::{
    check_header_safe, default_headers_spec, headers_view, is_header_safe, is_success,
    lemma_headers_view_snoc, Jina, PreparedRequest,
};

verus! {

broadcast use vstd::seq::group_seq_axioms, vstd::std_specs::vec::group_vec_axioms;

use vstd::string::StrSliceExecFns;
use vstd::string::StringExecFns;

/// Token accounting of a reader extraction.
#[derive(Debug, Clone, Copy, PartialEq, Eq, Structural)]
pub struct ReaderUsage {
    pub tokens: i64,
}

/// What the reader extracted from the target page.
#[derive(Debug)]
pub struct ReaderData {
    pub content: String,
    pub description: String,
    pub title: String,
    pub url: String,
    pub usage: ReaderUsage,
}

/// The reader endpoint's success body.
#[derive(Debug)]
pub struct ReaderResponse {
    pub code: i64,
    pub data: ReaderData,
    pub status: i64,
}

/// A request against the reader endpoint. Only `url` travels in the body;
/// every option set here travels as its own request header.
#[derive(Debug)]
pub struct ReaderRequest {
    pub url: String,
    pub return_format: Option<ReaderReturnFormat>,
    pub no_cache: Option<bool>,
    pub wait_for_selector: Option<String>,
    pub target_selector: Option<String>,
    pub timeout: Option<u16>,
    pub proxy_url: Option<String>,
    pub locale: Option<String>,
}

/// The forms the reader can return a page in.
#[derive(Debug, Clone, Copy, PartialEq, Eq, Structural)]
pub enum ReaderReturnFormat {
    Default,
    Markdown,
    Html,
    Text,
    Screenshot,
    Pageshot,
}

pub open spec fn return_format_name(f: ReaderReturnFormat) -> Seq<char> {
    match f {
        ReaderReturnFormat::Default => "default"@,
        ReaderReturnFormat::Markdown => "markdown"@,
        ReaderReturnFormat::Html => "html"@,
        ReaderReturnFormat::Text => "text"@,
        ReaderReturnFormat::Screenshot => "screenshot"@,
        ReaderReturnFormat::Pageshot => "pageshot"@,
    }
}

/// An upper-case ASCII letter folded to its lower-case form; every other
/// character stands as it is.
pub open spec fn lower_char(c: char) -> char {
    if c == 'A' { 'a' } else if c == 'B' { 'b' } else if c == 'C' { 'c' } else if c == 'D' { 'd' }
    else if c == 'E' { 'e' } else if c == 'F' { 'f' } else if c == 'G' { 'g' } else if c == 'H' { 'h' }
    else if c == 'I' { 'i' } else if c == 'J' { 'j' } else if c == 'K' { 'k' } else if c == 'L' { 'l' }
    else if c == 'M' { 'm' } else if c == 'N' { 'n' } else if c == 'O' { 'o' } else if c == 'P' { 'p' }
    else if c == 'Q' { 'q' } else if c == 'R' { 'r' } else if c == 'S' { 's' } else if c == 'T' { 't' }
    else if c == 'U' { 'u' } else if c == 'V' { 'v' } else if c == 'W' { 'w' } else if c == 'X' { 'x' }
    else if c == 'Y' { 'y' } else if c == 'Z' { 'z' } else { c }
}

pub open spec fn ascii_lower(s: Seq<char>) -> Seq<char> {
    Seq::new(s.len(), |i: int| lower_char(s[i]))
}

/// The format a name denotes, the name taken after case folding.
pub open spec fn parse_return_format(s: Seq<char>) -> Option<ReaderReturnFormat> {
    if s == "default"@ {
        Some(ReaderReturnFormat::Default)
    } else if s == "markdown"@ {
        Some(ReaderReturnFormat::Markdown)
    } else if s == "html"@ {
        Some(ReaderReturnFormat::Html)
    } else if s == "text"@ {
        Some(ReaderReturnFormat::Text)
    } else if s == "screenshot"@ {
        Some(ReaderReturnFormat::Screenshot)
    } else if s == "pageshot"@ {
        Some(ReaderReturnFormat::Pageshot)
    } else {
        None
    }
}

fn lower_char_exec(c: char) -> (r: char)
    ensures
        r == lower_char(c),
{
    match c {
        'A' => 'a', 'B' => 'b', 'C' => 'c', 'D' => 'd', 'E' => 'e', 'F' => 'f', 'G' => 'g',
        'H' => 'h', 'I' => 'i', 'J' => 'j', 'K' => 'k', 'L' => 'l', 'M' => 'm', 'N' => 'n',
        'O' => 'o', 'P' => 'p', 'Q' => 'q', 'R' => 'r', 'S' => 's', 'T' => 't', 'U' => 'u',
        'V' => 'v', 'W' => 'w', 'X' => 'x', 'Y' => 'y', 'Z' => 'z',
        _ => c,
    }
}

/// Whether `s`, after case folding, is exactly `name`.
#[verifier::loop_isolation(false)]
fn matches_lower(s: &str, name: &str) -> (b: bool)
    ensures
        b == (ascii_lower(s@) == name@),
{
    let n = s.unicode_len();
    if n != name.unicode_len() {
        proof {
            assert(ascii_lower(s@) != name@);
        }
        return false;
    }
    let mut i: usize = 0;
    while i < n
        invariant
            0 <= i <= n,
            forall|k: int| 0 <= k < i ==> ascii_lower(s@)[k] == name@[k],
        decreases n - i,
    {
        if lower_char_exec(s.get_char(i)) != name.get_char(i) {
            proof {
                assert(ascii_lower(s@)[i as int] != name@[i as int]);
            }
            return false;
        }
        i = i + 1;
    }
    proof {
        assert(ascii_lower(s@) =~= name@);
    }
    true
}

impl ReaderReturnFormat {
    /// The name a format serializes to.
    pub fn as_str(&self) -> (r: &'static str)
        ensures
            r@ == return_format_name(*self),
    {
        match self {
            ReaderReturnFormat::Default => "default",
            ReaderReturnFormat::Markdown => "markdown",
            ReaderReturnFormat::Html => "html",
            ReaderReturnFormat::Text => "text",
            ReaderReturnFormat::Screenshot => "screenshot",
            ReaderReturnFormat::Pageshot => "pageshot",
        }
    }

    /// Reads a format from its name, any letter casing accepted; a text
    /// naming no format is refused.
    pub fn try_from(value: &str) -> (r: Result<ReaderReturnFormat, JinaError>)
        ensures
            (match r {
                Ok(f) => parse_return_format(ascii_lower(value@)) == Some(f),
                Err(e) => parse_return_format(ascii_lower(value@)) is None && (e matches
                    JinaError::ConstructionError(ConstructionError::InvalidReturnFormat)),
            }),
    {
        if matches_lower(value, "default") {
            Ok(ReaderReturnFormat::Default)
        } else if matches_lower(value, "markdown") {
            Ok(ReaderReturnFormat::Markdown)
        } else if matches_lower(value, "html") {
            Ok(ReaderReturnFormat::Html)
        } else if matches_lower(value, "text") {
            Ok(ReaderReturnFormat::Text)
        } else if matches_lower(value, "screenshot") {
            Ok(ReaderReturnFormat::Screenshot)
        } else if matches_lower(value, "pageshot") {
            Ok(ReaderReturnFormat::Pageshot)
        } else {
            Err(JinaError::ConstructionError(ConstructionError::InvalidReturnFormat))
        }
    }
}

// ---------- the outbound call ----------

pub open spec fn hdr_return_format(r: ReaderRequest) -> Seq<(Seq<char>, Seq<char>)> {
    match r.return_format {
        Some(f) => seq![("X-Return-Format"@, return_format_name(f))],
        None => Seq::<(Seq<char>, Seq<char>)>::empty(),
    }
}

pub open spec fn hdr_target_selector(r: ReaderRequest) -> Seq<(Seq<char>, Seq<char>)> {
    match r.target_selector {
        Some(s) => seq![("X-Target-Selector"@, s@)],
        None => Seq::<(Seq<char>, Seq<char>)>::empty(),
    }
}

pub open spec fn hdr_locale(r: ReaderRequest) -> Seq<(Seq<char>, Seq<char>)> {
    match r.locale {
        Some(s) => seq![("X-Locale"@, s@)],
        None => Seq::<(Seq<char>, Seq<char>)>::empty(),
    }
}

pub open spec fn hdr_proxy_url(r: ReaderRequest) -> Seq<(Seq<char>, Seq<char>)> {
    match r.proxy_url {
        Some(s) => seq![("X-Proxy-Url"@, s@)],
        None => Seq::<(Seq<char>, Seq<char>)>::empty(),
    }
}

pub open spec fn hdr_timeout(r: ReaderRequest) -> Seq<(Seq<char>, Seq<char>)> {
    match r.timeout {
        Some(t) => seq![("X-Timeout"@, dec_digits(t as nat))],
        None => Seq::<(Seq<char>, Seq<char>)>::empty(),
    }
}

pub open spec fn hdr_no_cache(r: ReaderRequest) -> Seq<(Seq<char>, Seq<char>)> {
    match r.no_cache {
        Some(b) => seq![("X-No-Cache"@, if b { "true"@ } else { "false"@ })],
        None => Seq::<(Seq<char>, Seq<char>)>::empty(),
    }
}

pub open spec fn hdr_wait_for_selector(r: ReaderRequest) -> Seq<(Seq<char>, Seq<char>)> {
    match r.wait_for_selector {
        Some(s) => seq![("X-Wait-For-Selector"@, s@)],
        None => Seq::<(Seq<char>, Seq<char>)>::empty(),
    }
}

/// The headers a reader request adds after the default set: the accepted
/// body type, then one header per option that is set, in this order.
pub open spec fn reader_headers_spec(r: ReaderRequest) -> Seq<(Seq<char>, Seq<char>)> {
    seq![("Accept"@, "application/json"@)] + hdr_return_format(r) + hdr_target_selector(r)
        + hdr_locale(r) + hdr_proxy_url(r) + hdr_timeout(r) + hdr_no_cache(r)
        + hdr_wait_for_selector(r)
}

/// The first free-form option, in the order they are set, whose text cannot
/// stand in a header value; named by the header it was bound for.
pub open spec fn reader_header_error(r: ReaderRequest) -> Option<Seq<char>> {
    if r.target_selector matches Some(s) && !is_header_safe(s@) {
        Some("X-Target-Selector"@)
    } else if r.locale matches Some(s) && !is_header_safe(s@) {
        Some("X-Locale"@)
    } else if r.proxy_url matches Some(s) && !is_header_safe(s@) {
        Some("X-Proxy-Url"@)
    } else if r.wait_for_selector matches Some(s) && !is_header_safe(s@) {
        Some("X-Wait-For-Selector"@)
    } else {
        None
    }
}

/// The reader's body: the target URL and nothing else.
pub open spec fn reader_body_json(r: ReaderRequest) -> JsonSpec {
    JsonSpec::Obj(seq![("url"@, JsonSpec::Str(r.url@))])
}

/// Prepending the default set distributes over the reader's header chain.
proof fn lemma_reader_headers_chain(base: Seq<(Seq<char>, Seq<char>)>, r: ReaderRequest)
    ensures
        base + seq![("Accept"@, "application/json"@)] + hdr_return_format(r)
            + hdr_target_selector(r) + hdr_locale(r) + hdr_proxy_url(r) + hdr_timeout(r)
            + hdr_no_cache(r) + hdr_wait_for_selector(r) == base + reader_headers_spec(r),
{
    let a = seq![("Accept"@, "application/json"@)];
    vstd::seq_lib::lemma_concat_associative(base, a, hdr_return_format(r));
    vstd::seq_lib::lemma_concat_associative(base, a + hdr_return_format(r), hdr_target_selector(r));
    vstd::seq_lib::lemma_concat_associative(
        base,
        a + hdr_return_format(r) + hdr_target_selector(r),
        hdr_locale(r),
    );
    vstd::seq_lib::lemma_concat_associative(
        base,
        a + hdr_return_format(r) + hdr_target_selector(r) + hdr_locale(r),
        hdr_proxy_url(r),
    );
    vstd::seq_lib::lemma_concat_associative(
        base,
        a + hdr_return_format(r) + hdr_target_selector(r) + hdr_locale(r) + hdr_proxy_url(r),
        hdr_timeout(r),
    );
    vstd::seq_lib::lemma_concat_associative(
        base,
        a + hdr_return_format(r) + hdr_target_selector(r) + hdr_locale(r) + hdr_proxy_url(r)
            + hdr_timeout(r),
        hdr_no_cache(r),
    );
    vstd::seq_lib::lemma_concat_associative(
        base,
        a + hdr_return_format(r) + hdr_target_selector(r) + hdr_locale(r) + hdr_proxy_url(r)
            + hdr_timeout(r) + hdr_no_cache(r),
        hdr_wait_for_selector(r),
    );
}

/// Builds the header list of a reader call: the default set, then the
/// accepted body type, then one header per option that is set.
#[verifier::rlimit(60)]
fn reader_headers(client: &Jina, request: &ReaderRequest) -> (r: Result<
    Vec<(String, String)>,
    JinaError,
>)
    ensures
        (match r {
            Ok(h) => is_header_safe(client.api_key@) && reader_header_error(*request) is None
                && headers_view(h@) == default_headers_spec(client.api_key@)
                + reader_headers_spec(*request),
            Err(e) => (!is_header_safe(client.api_key@) || reader_header_error(*request) is Some)
                && (e matches JinaError::ConstructionError(
                ConstructionError::InvalidHeaderValue(n),
            ) && n@ == (
            if !is_header_safe(client.api_key@) {
                "Authorization"@
            } else {
                reader_header_error(*request).unwrap()
            })),
        }),
{
    let mut h = match client.default_headers() {
        Ok(h) => h,
        Err(e) => {
            return Err(e);
        },
    };
    let ghost base: Seq<(Seq<char>, Seq<char>)> = default_headers_spec(client.api_key@);
    let ghost h0 = h@;
    h.push((String::from_str("Accept"), String::from_str("application/json")));
    let ghost acc0: Seq<(Seq<char>, Seq<char>)> = base + seq![("Accept"@, "application/json"@)];
    proof {
        assert(h@.drop_last() =~= h0);
        lemma_headers_view_snoc(h@);
        assert(headers_view(h@) == acc0);
    }
    let ghost h1 = h@;
    match &request.return_format {
        Some(f) => {
            h.push((String::from_str("X-Return-Format"), String::from_str(f.as_str())));
            proof {
                assert(h@.drop_last() =~= h1);
                lemma_headers_view_snoc(h@);
            }
        },
        None => {},
    }
    let ghost acc1: Seq<(Seq<char>, Seq<char>)> = acc0 + hdr_return_format(*request);
    proof {
        if request.return_format is None {
            assert(acc1 =~= acc0);
        }
        assert(headers_view(h@) == acc1);
    }
    let ghost h2 = h@;
    match &request.target_selector {
        Some(s) => {
            if !check_header_safe(s.as_str()) {
                return Err(
                    JinaError::ConstructionError(
                        ConstructionError::InvalidHeaderValue(
                            String::from_str("X-Target-Selector"),
                        ),
                    ),
                );
            }
            h.push((String::from_str("X-Target-Selector"), s.clone()));
            proof {
                assert(h@.drop_last() =~= h2);
                lemma_headers_view_snoc(h@);
            }
        },
        None => {},
    }
    let ghost acc2: Seq<(Seq<char>, Seq<char>)> = acc1 + hdr_target_selector(*request);
    proof {
        if request.target_selector is None {
            assert(acc2 =~= acc1);
        }
        assert(headers_view(h@) == acc2);
    }
    let ghost h3 = h@;
    match &request.locale {
        Some(s) => {
            if !check_header_safe(s.as_str()) {
                return Err(
                    JinaError::ConstructionError(
                        ConstructionError::InvalidHeaderValue(String::from_str("X-Locale")),
                    ),
                );
            }
            h.push((String::from_str("X-Locale"), s.clone()));
            proof {
                assert(h@.drop_last() =~= h3);
                lemma_headers_view_snoc(h@);
            }
        },
        None => {},
    }
    let ghost acc3: Seq<(Seq<char>, Seq<char>)> = acc2 + hdr_locale(*request);
    proof {
        if request.locale is None {
            assert(acc3 =~= acc2);
        }
        assert(headers_view(h@) == acc3);
    }
    let ghost h4 = h@;
    match &request.proxy_url {
        Some(s) => {
            if !check_header_safe(s.as_str()) {
                return Err(
                    JinaError::ConstructionError(
                        ConstructionError::InvalidHeaderValue(String::from_str("X-Proxy-Url")),
                    ),
                );
            }
            h.push((String::from_str("X-Proxy-Url"), s.clone()));
            proof {
                assert(h@.drop_last() =~= h4);
                lemma_headers_view_snoc(h@);
            }
        },
        None => {},
    }
    let ghost acc4: Seq<(Seq<char>, Seq<char>)> = acc3 + hdr_proxy_url(*request);
    proof {
        if request.proxy_url is None {
            assert(acc4 =~= acc3);
        }
        assert(headers_view(h@) == acc4);
    }
    let ghost h5 = h@;
    match &request.timeout {
        Some(t) => {
            h.push((String::from_str("X-Timeout"), u64_to_string(*t as u64)));
            proof {
                assert(h@.drop_last() =~= h5);
                lemma_headers_view_snoc(h@);
            }
        },
        None => {},
    }
    let ghost acc5: Seq<(Seq<char>, Seq<char>)> = acc4 + hdr_timeout(*request);
    proof {
        if request.timeout is None {
            assert(acc5 =~= acc4);
        }
        assert(headers_view(h@) == acc5);
    }
    let ghost h6 = h@;
    match &request.no_cache {
        Some(b) => {
            h.push(
                (
                    String::from_str("X-No-Cache"),
                    String::from_str(if *b { "true" } else { "false" }),
                ),
            );
            proof {
                assert(h@.drop_last() =~= h6);
                lemma_headers_view_snoc(h@);
            }
        },
        None => {},
    }
    let ghost acc6: Seq<(Seq<char>, Seq<char>)> = acc5 + hdr_no_cache(*request);
    proof {
        if request.no_cache is None {
            assert(acc6 =~= acc5);
        }
        assert(headers_view(h@) == acc6);
    }
    let ghost h7 = h@;
    match &request.wait_for_selector {
        Some(s) => {
            if !check_header_safe(s.as_str()) {
                return Err(
                    JinaError::ConstructionError(
                        ConstructionError::InvalidHeaderValue(
                            String::from_str("X-Wait-For-Selector"),
                        ),
                    ),
                );
            }
            h.push((String::from_str("X-Wait-For-Selector"), s.clone()));
            proof {
                assert(h@.drop_last() =~= h7);
                lemma_headers_view_snoc(h@);
            }
        },
        None => {},
    }
    let ghost acc7: Seq<(Seq<char>, Seq<char>)> = acc6 + hdr_wait_for_selector(*request);
    proof {
        if request.wait_for_selector is None {
            assert(acc7 =~= acc6);
        }
        assert(headers_view(h@) == acc7);
        lemma_reader_headers_chain(base, *request);
    }
    Ok(h)
}

impl Jina {
    /// Builds the reader call: POST to the base URL itself, the default
    /// headers plus one header per option that is set, and a body holding
    /// only the target URL. A free-form option whose text cannot stand in a
    /// header value fails the construction, before anything is sent.
    pub fn reader(&self, request: &ReaderRequest) -> (r: Result<PreparedRequest, JinaError>)
        ensures
            (match r {
                Ok(p) => is_header_safe(self.api_key@) && reader_header_error(*request) is None
                    && p@.method == "POST"@ && p@.url == self.base_url@ && p@.headers
                    == default_headers_spec(self.api_key@) + reader_headers_spec(*request)
                    && p@.body == json_text(reader_body_json(*request)),
                Err(e) => (!is_header_safe(self.api_key@) || reader_header_error(
                    *request,
                ) is Some) && (e matches JinaError::ConstructionError(
                    ConstructionError::InvalidHeaderValue(n),
                ) && n@ == (
                if !is_header_safe(self.api_key@) {
                    "Authorization"@
                } else {
                    reader_header_error(*request).unwrap()
                })),
            }),
    {
        let h = match reader_headers(self, request) {
            Ok(h) => h,
            Err(e) => {
                return Err(e);
            },
        };
        let mut body_fields: Vec<(String, Json)> = Vec::new();
        body_fields.push((String::from_str("url"), Json::Str(request.url.clone())));
        let body_json = Json::Obj(body_fields);
        proof {
            lemma_jview_fields(body_fields@);
            assert(jview_fields(body_fields@) =~= seq![("url"@, JsonSpec::Str(request.url@))]);
        }
        Ok(
            PreparedRequest {
                method: String::from_str("POST"),
                url: self.base_url.clone(),
                headers: h,
                body: crate::json::json_to_string(&body_json),
            },
        )
    }

    /// Sorts a received status and body into the reader endpoint's typed
    /// response or the one error the call fails with.
    pub fn reader_response(status: u16, body: &str) -> (r: Result<ReaderResponse, JinaError>)
        ensures
            (match r {
                Ok(resp) => is_success(status) && (spec_parse_json(body@) matches Some(doc)
                    && dec_reader_response(doc) == Some(resp@)),
                Err(e) => match e {
                    JinaError::HttpError(h) => !is_success(status) && h.status == status && (
                    match h.payload {
                        Some(p) => spec_parse_json(body@) == Some(p@),
                        None => spec_parse_json(body@) is None,
                    }),
                    JinaError::DeserializationError(_) => is_success(status) && (match
                        spec_parse_json(body@) {
                        Some(doc) => dec_reader_response(doc) is None,
                        None => true,
                    }),
                    _ => false,
                },
            }),
    {
        let j = match Jina::handle_response(status, body) {
            Ok(j) => j,
            Err(e) => {
                return Err(e);
            },
        };
        match reader_response_from_json(&j) {
            Some(resp) => Ok(resp),
            None => Err(
                JinaError::DeserializationError(
                    String::from_str("body does not hold a reader response"),
                ),
            ),
        }
    }
}

// ---------- the response ----------

pub struct ReaderDataV {
    pub content: Seq<char>,
    pub description: Seq<char>,
    pub title: Seq<char>,
    pub url: Seq<char>,
    pub usage: ReaderUsage,
}

impl View for ReaderData {
    type V = ReaderDataV;

    open spec fn view(&self) -> ReaderDataV {
        (ReaderDataV {
            content: self.content@,
            description: self.description@,
            title: self.title@,
            url: self.url@,
            usage: self.usage,
        })
    }
}

pub struct ReaderResponseV {
    pub code: i64,
    pub data: ReaderDataV,
    pub status: i64,
}

impl View for ReaderResponse {
    type V = ReaderResponseV;

    open spec fn view(&self) -> ReaderResponseV {
        (ReaderResponseV { code: self.code, data: self.data@, status: self.status })
    }
}

pub open spec fn dec_str(j: JsonSpec) -> Option<Seq<char>> {
    match j {
        JsonSpec::Str(s) => Some(s),
        _ => None,
    }
}

/// The extracted page as the body carries it: four texts and the nested
/// token accounting.
pub open spec fn dec_reader_data(j: JsonSpec) -> Option<ReaderDataV> {
    match (
        spec_get(j, "content"@),
        spec_get(j, "description"@),
        spec_get(j, "title"@),
        spec_get(j, "url"@),
        spec_get(j, "usage"@),
    ) {
        (Some(cj), Some(dj), Some(tj), Some(uj), Some(gj)) => match (
            dec_str(cj),
            dec_str(dj),
            dec_str(tj),
            dec_str(uj),
            spec_get(gj, "tokens"@),
        ) {
            (Some(content), Some(description), Some(title), Some(url), Some(kj)) => match
                spec_int_of(kj) {
                Some(k) => if i64::MIN <= k <= i64::MAX {
                    Some(
                        (ReaderDataV {
                            content,
                            description,
                            title,
                            url,
                            usage: (ReaderUsage { tokens: k as i64 }),
                        }),
                    )
                } else {
                    None
                },
                None => None,
            },
            _ => None,
        },
        _ => None,
    }
}

/// The whole documented success body of the reader endpoint.
pub open spec fn dec_reader_response(j: JsonSpec) -> Option<ReaderResponseV> {
    match (spec_get(j, "code"@), spec_get(j, "data"@), spec_get(j, "status"@)) {
        (Some(cj), Some(dj), Some(sj)) => match (spec_int_of(cj), spec_int_of(sj)) {
            (Some(c), Some(s)) => if i64::MIN <= c <= i64::MAX && i64::MIN <= s <= i64::MAX {
                match dec_reader_data(dj) {
                    Some(d) => Some(
                        (ReaderResponseV { code: c as i64, data: d, status: s as i64 }),
                    ),
                    None => None,
                }
            } else {
                None
            },
            _ => None,
        },
        _ => None,
    }
}

fn str_of(j: &Json) -> (r: Option<String>)
    ensures
        (match r {
            Some(s) => dec_str(j@) == Some(s@),
            None => dec_str(j@) is None,
        }),
{
    match j {
        Json::Str(s) => Some(s.clone()),
        _ => None,
    }
}

pub fn reader_data_from_json(j: &Json) -> (r: Option<ReaderData>)
    ensures
        (match r {
            Some(d) => dec_reader_data(j@) == Some(d@),
            None => dec_reader_data(j@) is None,
        }),
{
    let cj = match get_field(j, "content") {
        Some(x) => x,
        None => {
            return None;
        },
    };
    let dj = match get_field(j, "description") {
        Some(x) => x,
        None => {
            return None;
        },
    };
    let tj = match get_field(j, "title") {
        Some(x) => x,
        None => {
            return None;
        },
    };
    let uj = match get_field(j, "url") {
        Some(x) => x,
        None => {
            return None;
        },
    };
    let gj = match get_field(j, "usage") {
        Some(x) => x,
        None => {
            return None;
        },
    };
    let content = match str_of(cj) {
        Some(s) => s,
        None => {
            return None;
        },
    };
    let description = match str_of(dj) {
        Some(s) => s,
        None => {
            return None;
        },
    };
    let title = match str_of(tj) {
        Some(s) => s,
        None => {
            return None;
        },
    };
    let url = match str_of(uj) {
        Some(s) => s,
        None => {
            return None;
        },
    };
    let kj = match get_field(gj, "tokens") {
        Some(x) => x,
        None => {
            return None;
        },
    };
    let tokens = match get_int(kj) {
        Some(v) => v,
        None => {
            return None;
        },
    };
    Some(ReaderData { content, description, title, url, usage: ReaderUsage { tokens } })
}

pub fn reader_response_from_json(j: &Json) -> (r: Option<ReaderResponse>)
    ensures
        (match r {
            Some(resp) => dec_reader_response(j@) == Some(resp@),
            None => dec_reader_response(j@) is None,
        }),
{
    let cj = match get_field(j, "code") {
        Some(x) => x,
        None => {
            return None;
        },
    };
    let dj = match get_field(j, "data") {
        Some(x) => x,
        None => {
            return None;
        },
    };
    let sj = match get_field(j, "status") {
        Some(x) => x,
        None => {
            return None;
        },
    };
    let code = match get_int(cj) {
        Some(v) => v,
        None => {
            return None;
        },
    };
    let status = match get_int(sj) {
        Some(v) => v,
        None => {
            return None;
        },
    };
    let data = match reader_data_from_json(dj) {
        Some(d) => d,
        None => {
            return None;
        },
    };
    Some(ReaderResponse { code, data, status })
}

} // verus!
