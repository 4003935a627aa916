use vstd::prelude::*;

use crate::embeddings::TextDoc;
use crate::error::{ConstructionError, JinaError};
use crate::json::{
    dec_digits, json_text, jview, jview_fields, jview_list, lemma_jview_fields, lemma_jview_list,
    obj_lookup, spec_get, spec_int_of, spec_parse_json, get_field, get_int, u64_to_string, Json,
    JsonSpec,
};
use crate::{
    default_headers_spec, is_header_safe, is_success, Jina, PreparedRequest, Usage,
};

verus! {

broadcast use vstd::seq::group_seq_axioms, vstd::std_specs::vec::group_vec_axioms;

use vstd::string::StrSliceExecFns;
use vstd::string::StringExecFns;

/// The closed set of reranker models the endpoint accepts.
#[derive(Debug, Clone, Copy, PartialEq, Eq, Structural)]
pub enum RerankerModel {
    RerankerV2BaseMultilingual,
    RerankerV1BaseEn,
    RerankerV1TinyEn,
    RerankerV1TurboEn,
    ColbertV1En,
}

/// The search query: a plain text or a text document. No tag on the wire;
/// the shape alone distinguishes them.
#[derive(Debug)]
pub enum QueryType {
    String(String),
    TextDoc(TextDoc),
}

/// The candidates to rerank: a list of texts or a list of text documents,
/// one shape for the whole list.
#[derive(Debug)]
pub enum DocumentType {
    Strings(Vec<String>),
    TextDocs(Vec<TextDoc>),
}

/// A request against the rerank endpoint. The two options are forwarded
/// exactly as given; their defaults are the server's business.
#[derive(Debug)]
pub struct RerankRequest {
    /// The identifier of the model.
    pub model: RerankerModel,
    /// The search query.
    pub query: QueryType,
    /// The candidates to rank against the query.
    pub documents: DocumentType,
    /// How many of the best candidates come back; the server defaults to
    /// all of them when absent.
    pub top_n: Option<usize>,
    /// Whether ranked results echo the candidate text; the server defaults
    /// to echoing when absent.
    pub return_documents: Option<bool>,
}

pub open spec fn reranker_name(m: RerankerModel) -> Seq<char> {
    match m {
        RerankerModel::RerankerV2BaseMultilingual => "jina-reranker-v2-base-multilingual"@,
        RerankerModel::RerankerV1BaseEn => "jina-reranker-v1-base-en"@,
        RerankerModel::RerankerV1TinyEn => "jina-reranker-v1-tiny-en"@,
        RerankerModel::RerankerV1TurboEn => "jina-reranker-v1-turbo-en"@,
        RerankerModel::ColbertV1En => "jina-colbert-v1-en"@,
    }
}

pub open spec fn text_doc_json(t: TextDoc) -> JsonSpec {
    JsonSpec::Obj(seq![("text"@, JsonSpec::Str(t.text@))])
}

pub open spec fn query_json(q: QueryType) -> JsonSpec {
    match q {
        QueryType::String(s) => JsonSpec::Str(s@),
        QueryType::TextDoc(t) => text_doc_json(t),
    }
}

pub open spec fn documents_json(d: DocumentType) -> JsonSpec {
    match d {
        DocumentType::Strings(v) => JsonSpec::Arr(Seq::new(v@.len(), |k: int| JsonSpec::Str(v@[k]@))),
        DocumentType::TextDocs(v) => JsonSpec::Arr(Seq::new(v@.len(), |k: int| text_doc_json(v@[k]))),
    }
}

/// The documented body: model, query and documents always, the two options
/// only when set - an absent option leaves no key behind, it is not null.
pub open spec fn rerank_request_json(r: RerankRequest) -> JsonSpec {
    JsonSpec::Obj(
        seq![
            ("model"@, JsonSpec::Str(reranker_name(r.model))),
            ("query"@, query_json(r.query)),
            ("documents"@, documents_json(r.documents)),
        ] + (
        if r.top_n is Some {
            seq![("top_n"@, JsonSpec::Num(dec_digits(r.top_n.unwrap() as nat)))]
        } else {
            Seq::<(Seq<char>, JsonSpec)>::empty()
        }) + (
        if r.return_documents is Some {
            seq![("return_documents"@, JsonSpec::Bool(r.return_documents.unwrap()))]
        } else {
            Seq::<(Seq<char>, JsonSpec)>::empty()
        }),
    )
}

/// Members before `k` never matching `key` move a lookup past them.
pub proof fn lemma_obj_lookup_skip(fields: Seq<(Seq<char>, JsonSpec)>, key: Seq<char>, k: int)
    requires
        0 <= k <= fields.len(),
        forall|i: int| 0 <= i < k ==> fields[i].0 != key,
    ensures
        obj_lookup(fields, key) == obj_lookup(fields.skip(k), key),
    decreases k,
{
    if k > 0 {
        lemma_obj_lookup_skip(fields, key, k - 1);
        assert(fields.skip(k - 1)[0] == fields[k - 1]);
        assert(fields.skip(k - 1).drop_first() =~= fields.skip(k));
        assert(fields.skip(0) =~= fields);
    } else {
        assert(fields.skip(0) =~= fields);
    }
}

/// No `top_n` in the request leaves no `top_n` member in the body - the
/// member is absent, not null - so the server's own default applies; and a
/// given `top_n` stands in the body as its decimal literal.
pub proof fn lemma_rerank_top_n_forwarding(r: RerankRequest)
    ensures
        rerank_request_json(r) matches JsonSpec::Obj(fields) && (match r.top_n {
            None => obj_lookup(fields, "top_n"@) is None,
            Some(n) => obj_lookup(fields, "top_n"@) == Some(JsonSpec::Num(dec_digits(n as nat))),
        }),
{
    let fields = rerank_request_json(r)->Obj_0;
    let key = "top_n"@;
    reveal_strlit("model");
    reveal_strlit("query");
    reveal_strlit("documents");
    reveal_strlit("top_n");
    reveal_strlit("return_documents");
    assert("model"@[0] == 'm' && key[0] == 't');
    assert("model"@ != key);
    assert("query"@[0] == 'q');
    assert("query"@ != key);
    assert("documents"@.len() == 9 && key.len() == 5);
    assert("documents"@ != key);
    assert("return_documents"@.len() == 16);
    assert("return_documents"@ != key);
    match r.top_n {
        None => {
            if r.return_documents is Some {
                assert(fields.len() == 4);
                lemma_obj_lookup_skip(fields, key, 4);
                assert(fields.skip(4) =~= Seq::<(Seq<char>, JsonSpec)>::empty());
            } else {
                assert(fields.len() == 3);
                lemma_obj_lookup_skip(fields, key, 3);
                assert(fields.skip(3) =~= Seq::<(Seq<char>, JsonSpec)>::empty());
            }
        },
        Some(n) => {
            assert(fields[3].0 == key);
            lemma_obj_lookup_skip(fields, key, 3);
            assert(fields.skip(3)[0] == fields[3]);
        },
    }
}

fn reranker_name_str(m: &RerankerModel) -> (r: &'static str)
    ensures
        r@ == reranker_name(*m),
{
    match m {
        RerankerModel::RerankerV2BaseMultilingual => "jina-reranker-v2-base-multilingual",
        RerankerModel::RerankerV1BaseEn => "jina-reranker-v1-base-en",
        RerankerModel::RerankerV1TinyEn => "jina-reranker-v1-tiny-en",
        RerankerModel::RerankerV1TurboEn => "jina-reranker-v1-turbo-en",
        RerankerModel::ColbertV1En => "jina-colbert-v1-en",
    }
}

fn text_doc_to_json(t: &TextDoc) -> (j: Json)
    ensures
        j@ == text_doc_json(*t),
{
    let mut fields: Vec<(String, Json)> = Vec::new();
    fields.push((String::from_str("text"), Json::Str(t.text.clone())));
    let j = Json::Obj(fields);
    proof {
        lemma_jview_fields(fields@);
        assert(jview_fields(fields@) =~= seq![("text"@, JsonSpec::Str(t.text@))]);
    }
    j
}

fn query_to_json(q: &QueryType) -> (j: Json)
    ensures
        j@ == query_json(*q),
{
    match q {
        QueryType::String(s) => Json::Str(s.clone()),
        QueryType::TextDoc(t) => text_doc_to_json(t),
    }
}

#[verifier::loop_isolation(false)]
fn documents_to_json(d: &DocumentType) -> (j: Json)
    ensures
        j@ == documents_json(*d),
{
    match d {
        DocumentType::Strings(v) => {
            let mut items: Vec<Json> = Vec::new();
            let n = v.len();
            let mut k: usize = 0;
            while k < n
                invariant
                    0 <= k <= n,
                    items@.len() == k,
                    forall|x: int| 0 <= x < k ==> jview(items@[x]) == JsonSpec::Str(v@[x]@),
                decreases n - k,
            {
                items.push(Json::Str(v[k].clone()));
                k = k + 1;
            }
            let j = Json::Arr(items);
            proof {
                lemma_jview_list(items@);
                assert(jview_list(items@) =~= Seq::new(v@.len(), |x: int| JsonSpec::Str(v@[x]@)));
            }
            j
        },
        DocumentType::TextDocs(v) => {
            let mut items: Vec<Json> = Vec::new();
            let n = v.len();
            let mut k: usize = 0;
            while k < n
                invariant
                    0 <= k <= n,
                    items@.len() == k,
                    forall|x: int| 0 <= x < k ==> jview(items@[x]) == text_doc_json(v@[x]),
                decreases n - k,
            {
                let dj = text_doc_to_json(&v[k]);
                items.push(dj);
                k = k + 1;
            }
            let j = Json::Arr(items);
            proof {
                lemma_jview_list(items@);
                assert(jview_list(items@) =~= Seq::new(v@.len(), |x: int| text_doc_json(v@[x])));
            }
            j
        },
    }
}

/// The request as a document, exactly `rerank_request_json`.
fn rerank_request_to_json(r: &RerankRequest) -> (j: Json)
    ensures
        j@ == rerank_request_json(*r),
{
    let mut fields: Vec<(String, Json)> = Vec::new();
    fields.push((
        String::from_str("model"),
        Json::Str(String::from_str(reranker_name_str(&r.model))),
    ));
    let qj = query_to_json(&r.query);
    fields.push((String::from_str("query"), qj));
    let dj = documents_to_json(&r.documents);
    fields.push((String::from_str("documents"), dj));
    match r.top_n {
        Some(n) => {
            fields.push((String::from_str("top_n"), Json::Num(u64_to_string(n as u64))));
        },
        None => {},
    }
    match r.return_documents {
        Some(b) => {
            fields.push((String::from_str("return_documents"), Json::Bool(b)));
        },
        None => {},
    }
    let j = Json::Obj(fields);
    proof {
        lemma_jview_fields(fields@);
        assert(jview(j) matches JsonSpec::Obj(fs) && fs =~= rerank_request_json(*r)->Obj_0);
    }
    j
}

// ---------- the response ----------

/// The candidate text a ranked result echoes.
#[derive(Debug)]
pub struct RankedDocument {
    pub text: String,
}

pub struct RankedDocumentV {
    pub text: Seq<char>,
}

impl View for RankedDocument {
    type V = RankedDocumentV;

    open spec fn view(&self) -> RankedDocumentV {
        (RankedDocumentV { text: self.text@ })
    }
}

/// One ranked candidate: its place in the request's document list, the
/// echoed document, and the relevance score as the number literal the body
/// carried.
#[derive(Debug)]
pub struct RankedResult {
    pub index: usize,
    pub document: RankedDocument,
    pub relevance_score: String,
}

pub struct RankedResultV {
    pub index: usize,
    pub document: RankedDocumentV,
    pub relevance_score: Seq<char>,
}

impl View for RankedResult {
    type V = RankedResultV;

    open spec fn view(&self) -> RankedResultV {
        (RankedResultV {
            index: self.index,
            document: self.document@,
            relevance_score: self.relevance_score@,
        })
    }
}

/// The rerank endpoint's success body.
#[derive(Debug)]
pub struct RerankResponse {
    pub model: String,
    pub results: Vec<RankedResult>,
    pub usage: Usage,
}

pub struct RerankResponseV {
    pub model: Seq<char>,
    pub results: Seq<RankedResultV>,
    pub usage: Usage,
}

impl View for RerankResponse {
    type V = RerankResponseV;

    open spec fn view(&self) -> RerankResponseV {
        (RerankResponseV {
            model: self.model@,
            results: Seq::new(self.results@.len(), |i: int| self.results@[i]@),
            usage: self.usage,
        })
    }
}

/// One ranked result as the body carries it: index, document with its
/// text, and a numeric relevance score.
pub open spec fn dec_ranked_result(j: JsonSpec) -> Option<RankedResultV> {
    match (spec_get(j, "index"@), spec_get(j, "document"@), spec_get(j, "relevance_score"@)) {
        (Some(ij), Some(dj), Some(sj)) => match (spec_int_of(ij), spec_get(dj, "text"@), sj) {
            (Some(iv), Some(JsonSpec::Str(t)), JsonSpec::Num(score)) => if 0 <= iv <= usize::MAX {
                Some(
                    (RankedResultV {
                        index: iv as usize,
                        document: (RankedDocumentV { text: t }),
                        relevance_score: score,
                    }),
                )
            } else {
                None
            },
            _ => None,
        },
        _ => None,
    }
}

pub fn ranked_result_from_json(j: &Json) -> (r: Option<RankedResult>)
    ensures
        (match r {
            Some(x) => dec_ranked_result(j@) == Some(x@),
            None => dec_ranked_result(j@) is None,
        }),
{
    let ij = match get_field(j, "index") {
        Some(x) => x,
        None => {
            return None;
        },
    };
    let dj = match get_field(j, "document") {
        Some(x) => x,
        None => {
            return None;
        },
    };
    let sj = match get_field(j, "relevance_score") {
        Some(x) => x,
        None => {
            return None;
        },
    };
    let iv = match get_int(ij) {
        Some(v) => v,
        None => {
            return None;
        },
    };
    if iv < 0 || (iv as u64) > (usize::MAX as u64) {
        return None;
    }
    let tj = match get_field(dj, "text") {
        Some(x) => x,
        None => {
            return None;
        },
    };
    let text = match tj {
        Json::Str(s) => s.clone(),
        _ => {
            return None;
        },
    };
    let score = match sj {
        Json::Num(t) => t.clone(),
        _ => {
            return None;
        },
    };
    Some(
        RankedResult {
            index: iv as usize,
            document: RankedDocument { text },
            relevance_score: score,
        },
    )
}

/// The ordered run of ranked results of the body's results list.
pub open spec fn dec_ranked_list(items: Seq<JsonSpec>) -> Option<Seq<RankedResultV>>
    decreases items.len(),
{
    if items.len() == 0 {
        Some(Seq::empty())
    } else {
        match dec_ranked_list(items.drop_last()) {
            Some(pre) => match dec_ranked_result(items.last()) {
                Some(e) => Some(pre.push(e)),
                None => None,
            },
            None => None,
        }
    }
}

proof fn lemma_dec_ranked_list_none(items: Seq<JsonSpec>, k: int)
    requires
        0 <= k < items.len(),
        dec_ranked_result(items[k]) is None,
    ensures
        dec_ranked_list(items) is None,
    decreases items.len(),
{
    if k < items.len() - 1 {
        assert(items.drop_last()[k] == items[k]);
        lemma_dec_ranked_list_none(items.drop_last(), k);
    }
}

#[verifier::loop_isolation(false)]
fn ranked_list_from_json(items: &Vec<Json>) -> (r: Option<Vec<RankedResult>>)
    ensures
        (match r {
            Some(v) => dec_ranked_list(jview_list(items@)) == Some(
                Seq::new(v@.len(), |i: int| v@[i]@),
            ),
            None => dec_ranked_list(jview_list(items@)) is None,
        }),
{
    let ghost jitems: Seq<JsonSpec> = jview_list(items@);
    proof {
        lemma_jview_list(items@);
    }
    let mut acc: Vec<RankedResult> = Vec::new();
    let n = items.len();
    let mut k: usize = 0;
    while k < n
        invariant
            0 <= k <= n,
            dec_ranked_list(jitems.subrange(0, k as int)) == Some(
                Seq::new(acc@.len(), |i: int| acc@[i]@),
            ),
        decreases n - k,
    {
        proof {
            assert(jitems.subrange(0, k + 1 as int).drop_last() =~= jitems.subrange(0, k as int));
        }
        match ranked_result_from_json(&items[k]) {
            Some(e) => {
                acc.push(e);
                proof {
                    assert(Seq::new(acc@.len(), |i: int| acc@[i]@) =~= Seq::new(
                        acc@.drop_last().len(),
                        |i: int| acc@.drop_last()[i]@,
                    ).push(acc@.last()@));
                }
            },
            None => {
                proof {
                    lemma_dec_ranked_list_none(jitems, k as int);
                }
                return None;
            },
        }
        k = k + 1;
    }
    proof {
        assert(jitems.subrange(0, n as int) =~= jitems);
    }
    Some(acc)
}

/// The whole documented success body of the rerank endpoint.
pub open spec fn dec_rerank_response(j: JsonSpec) -> Option<RerankResponseV> {
    match (spec_get(j, "model"@), spec_get(j, "results"@), spec_get(j, "usage"@)) {
        (Some(mj), Some(rj), Some(uj)) => match (mj, rj) {
            (JsonSpec::Str(m), JsonSpec::Arr(items)) => match (
                dec_ranked_list(items),
                crate::embeddings::dec_usage(uj),
            ) {
                (Some(rs), Some(u)) => Some((RerankResponseV { model: m, results: rs, usage: u })),
                _ => None,
            },
            _ => None,
        },
        _ => None,
    }
}

pub fn rerank_response_from_json(j: &Json) -> (r: Option<RerankResponse>)
    ensures
        (match r {
            Some(resp) => dec_rerank_response(j@) == Some(resp@),
            None => dec_rerank_response(j@) is None,
        }),
{
    let mj = match get_field(j, "model") {
        Some(x) => x,
        None => {
            return None;
        },
    };
    let rj = match get_field(j, "results") {
        Some(x) => x,
        None => {
            return None;
        },
    };
    let uj = match get_field(j, "usage") {
        Some(x) => x,
        None => {
            return None;
        },
    };
    let model = match mj {
        Json::Str(s) => s.clone(),
        _ => {
            return None;
        },
    };
    let items = match rj {
        Json::Arr(items) => items,
        _ => {
            return None;
        },
    };
    let results = match ranked_list_from_json(items) {
        Some(v) => v,
        None => {
            return None;
        },
    };
    let usage = match crate::embeddings::usage_from_json(uj) {
        Some(u) => u,
        None => {
            return None;
        },
    };
    Some(RerankResponse { model, results, usage })
}

impl Jina {
    /// Builds the rerank call: POST to the rerank path with the request
    /// written as its documented body, under the default headers.
    pub fn rerank(&self, request: &RerankRequest) -> (r: Result<PreparedRequest, JinaError>)
        ensures
            (match r {
                Ok(p) => is_header_safe(self.api_key@) && p@.method == "POST"@ && p@.url
                    == self.base_url@ + "/v1/rerank"@ && p@.headers == default_headers_spec(
                    self.api_key@,
                ) && p@.body == json_text(rerank_request_json(*request)),
                Err(e) => !is_header_safe(self.api_key@) && (e matches
                    JinaError::ConstructionError(ConstructionError::InvalidHeaderValue(n))
                    && n@ == "Authorization"@),
            }),
    {
        let j = rerank_request_to_json(request);
        self.post("/v1/rerank", &j)
    }

    /// Sorts a received status and body into the rerank endpoint's typed
    /// response or the one error the call fails with.
    pub fn rerank_response(status: u16, body: &str) -> (r: Result<RerankResponse, JinaError>)
        ensures
            (match r {
                Ok(resp) => is_success(status) && (spec_parse_json(body@) matches Some(doc)
                    && dec_rerank_response(doc) == Some(resp@)),
                Err(e) => match e {
                    JinaError::HttpError(h) => !is_success(status) && h.status == status && (
                    match h.payload {
                        Some(p) => spec_parse_json(body@) == Some(p@),
                        None => spec_parse_json(body@) is None,
                    }),
                    JinaError::DeserializationError(_) => is_success(status) && (match
                        spec_parse_json(body@) {
                        Some(doc) => dec_rerank_response(doc) is None,
                        None => true,
                    }),
                    _ => false,
                },
            }),
    {
        let j = match Jina::handle_response(status, body) {
            Ok(j) => j,
            Err(e) => {
                return Err(e);
            },
        };
        match rerank_response_from_json(&j) {
            Some(resp) => Ok(resp),
            None => Err(
                JinaError::DeserializationError(
                    String::from_str("body does not hold a rerank response"),
                ),
            ),
        }
    }
}

} // verus!
