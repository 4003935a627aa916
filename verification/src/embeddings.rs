use vstd::prelude::*;

use crate::error::{ConstructionError, JinaError};
use crate::json::{
    json_text, jview, jview_fields, jview_list, lemma_jview_fields, lemma_jview_list,
    spec_get, spec_int_of, spec_parse_json, get_field, get_int, parse_json, Json, JsonSpec,
};
use crate::{
    default_headers_spec, is_header_safe, is_success, strs_view, Jina, PreparedRequest, Usage,
};

verus! {

broadcast use vstd::seq::group_seq_axioms, vstd::std_specs::vec::group_vec_axioms;

use vstd::string::StrSliceExecFns;
use vstd::string::StringExecFns;

/// The closed set of embeddings models the endpoint accepts.
#[derive(Debug, Clone, Copy, PartialEq, Eq, Structural)]
pub enum EmbeddingsModel {
    ClipV1,
    EmbeddingsV2BaseEn,
    EmbeddingsV2BaseEs,
    EmbeddingsV2BaseDe,
    EmbeddingsV2BaseZh,
    EmbeddingsV2BaseCode,
}

/// What to embed: one text, a list of texts, one document, or a list of
/// documents. The wire carries no tag; the shape alone distinguishes them.
#[derive(Debug)]
pub enum EmbeddingsInput {
    StringArray(Vec<String>),
    String(String),
    DocArray(Vec<Doc>),
    Doc(Doc),
}

/// A structured input: either text-bearing or image-bearing.
#[derive(Debug)]
pub enum Doc {
    Text(TextDoc),
    Image(ImageDoc),
}

#[derive(Debug)]
pub struct ImageDoc {
    pub image: String,
}

#[derive(Debug)]
pub struct TextDoc {
    pub text: String,
}

/// The requested result encoding: one kind or a list of kinds.
#[derive(Debug)]
pub enum EmbeddingType {
    Single(EmbeddingTypeEnum),
    Multiple(Vec<EmbeddingTypeEnum>),
}

#[derive(Debug, Clone, Copy, PartialEq, Eq, Structural)]
pub enum EmbeddingTypeEnum {
    Float,
    Base64,
    Binary,
    Ubinary,
}

/// A request against the embeddings endpoint.
#[derive(Debug)]
pub struct EmbeddingsRequest {
    /// The identifier of the model.
    pub model: EmbeddingsModel,
    /// What to embed.
    pub input: EmbeddingsInput,
    /// The encoding the embeddings come back in; the server picks its
    /// default when absent.
    pub embedding_type: Option<EmbeddingType>,
    /// Whether the embeddings are normalized to unit length; the server
    /// picks its default when absent.
    pub normalized: Option<bool>,
}

pub open spec fn model_name(m: EmbeddingsModel) -> Seq<char> {
    match m {
        EmbeddingsModel::ClipV1 => "jina-clip-v1"@,
        EmbeddingsModel::EmbeddingsV2BaseEn => "jina-embeddings-v2-base-en"@,
        EmbeddingsModel::EmbeddingsV2BaseEs => "jina-embeddings-v2-base-es"@,
        EmbeddingsModel::EmbeddingsV2BaseDe => "jina-embeddings-v2-base-de"@,
        EmbeddingsModel::EmbeddingsV2BaseZh => "jina-embeddings-v2-base-zh"@,
        EmbeddingsModel::EmbeddingsV2BaseCode => "jina-embeddings-v2-base-code"@,
    }
}

pub open spec fn embedding_type_name(t: EmbeddingTypeEnum) -> Seq<char> {
    match t {
        EmbeddingTypeEnum::Float => "float"@,
        EmbeddingTypeEnum::Base64 => "base64"@,
        EmbeddingTypeEnum::Binary => "binary"@,
        EmbeddingTypeEnum::Ubinary => "ubinary"@,
    }
}

/// A document on the wire: an object with the one key its kind dictates.
pub open spec fn doc_json(d: Doc) -> JsonSpec {
    match d {
        Doc::Text(t) => JsonSpec::Obj(seq![("text"@, JsonSpec::Str(t.text@))]),
        Doc::Image(i) => JsonSpec::Obj(seq![("image"@, JsonSpec::Str(i.image@))]),
    }
}

/// The input on the wire: the shape of the constructed variant, no tag.
pub open spec fn input_json(i: EmbeddingsInput) -> JsonSpec {
    match i {
        EmbeddingsInput::StringArray(v) => JsonSpec::Arr(
            Seq::new(v@.len(), |k: int| JsonSpec::Str(v@[k]@)),
        ),
        EmbeddingsInput::String(s) => JsonSpec::Str(s@),
        EmbeddingsInput::DocArray(v) => JsonSpec::Arr(Seq::new(v@.len(), |k: int| doc_json(v@[k]))),
        EmbeddingsInput::Doc(d) => doc_json(d),
    }
}

pub open spec fn embedding_type_json(t: EmbeddingType) -> JsonSpec {
    match t {
        EmbeddingType::Single(e) => JsonSpec::Str(embedding_type_name(e)),
        EmbeddingType::Multiple(v) => JsonSpec::Arr(
            Seq::new(v@.len(), |k: int| JsonSpec::Str(embedding_type_name(v@[k]))),
        ),
    }
}

/// The documented body: model and input always, the two options only when
/// set - an absent option leaves no key behind, it is not null.
pub open spec fn embeddings_request_json(r: EmbeddingsRequest) -> JsonSpec {
    JsonSpec::Obj(
        seq![("model"@, JsonSpec::Str(model_name(r.model))), ("input"@, input_json(r.input))] + (
        if r.embedding_type is Some {
            seq![("embedding_type"@, embedding_type_json(r.embedding_type.unwrap()))]
        } else {
            Seq::<(Seq<char>, JsonSpec)>::empty()
        }) + (
        if r.normalized is Some {
            seq![("normalized"@, JsonSpec::Bool(r.normalized.unwrap()))]
        } else {
            Seq::<(Seq<char>, JsonSpec)>::empty()
        }),
    )
}

fn model_name_str(m: &EmbeddingsModel) -> (r: &'static str)
    ensures
        r@ == model_name(*m),
{
    match m {
        EmbeddingsModel::ClipV1 => "jina-clip-v1",
        EmbeddingsModel::EmbeddingsV2BaseEn => "jina-embeddings-v2-base-en",
        EmbeddingsModel::EmbeddingsV2BaseEs => "jina-embeddings-v2-base-es",
        EmbeddingsModel::EmbeddingsV2BaseDe => "jina-embeddings-v2-base-de",
        EmbeddingsModel::EmbeddingsV2BaseZh => "jina-embeddings-v2-base-zh",
        EmbeddingsModel::EmbeddingsV2BaseCode => "jina-embeddings-v2-base-code",
    }
}

fn embedding_type_name_str(t: &EmbeddingTypeEnum) -> (r: &'static str)
    ensures
        r@ == embedding_type_name(*t),
{
    match t {
        EmbeddingTypeEnum::Float => "float",
        EmbeddingTypeEnum::Base64 => "base64",
        EmbeddingTypeEnum::Binary => "binary",
        EmbeddingTypeEnum::Ubinary => "ubinary",
    }
}

fn doc_to_json(d: &Doc) -> (j: Json)
    ensures
        j@ == doc_json(*d),
{
    match d {
        Doc::Text(t) => {
            let mut fields: Vec<(String, Json)> = Vec::new();
            fields.push((String::from_str("text"), Json::Str(t.text.clone())));
            let j = Json::Obj(fields);
            proof {
                lemma_jview_fields(fields@);
                assert(jview_fields(fields@) =~= seq![("text"@, JsonSpec::Str(t.text@))]);
            }
            j
        },
        Doc::Image(i) => {
            let mut fields: Vec<(String, Json)> = Vec::new();
            fields.push((String::from_str("image"), Json::Str(i.image.clone())));
            let j = Json::Obj(fields);
            proof {
                lemma_jview_fields(fields@);
                assert(jview_fields(fields@) =~= seq![("image"@, JsonSpec::Str(i.image@))]);
            }
            j
        },
    }
}

#[verifier::loop_isolation(false)]
fn input_to_json(input: &EmbeddingsInput) -> (j: Json)
    ensures
        j@ == input_json(*input),
{
    match input {
        EmbeddingsInput::String(s) => Json::Str(s.clone()),
        EmbeddingsInput::StringArray(v) => {
            let mut items: Vec<Json> = Vec::new();
            let n = v.len();
            let mut k: usize = 0;
            while k < n
                invariant
                    0 <= k <= n,
                    items@.len() == k,
                    forall|x: int| 0 <= x < k ==> jview(items@[x]) == JsonSpec::Str(v@[x]@),
                decreases n - k,
            {
                items.push(Json::Str(v[k].clone()));
                k = k + 1;
            }
            let j = Json::Arr(items);
            proof {
                lemma_jview_list(items@);
                assert(jview_list(items@) =~= Seq::new(v@.len(), |x: int| JsonSpec::Str(v@[x]@)));
            }
            j
        },
        EmbeddingsInput::DocArray(v) => {
            let mut items: Vec<Json> = Vec::new();
            let n = v.len();
            let mut k: usize = 0;
            while k < n
                invariant
                    0 <= k <= n,
                    items@.len() == k,
                    forall|x: int| 0 <= x < k ==> jview(items@[x]) == doc_json(v@[x]),
                decreases n - k,
            {
                let dj = doc_to_json(&v[k]);
                items.push(dj);
                k = k + 1;
            }
            let j = Json::Arr(items);
            proof {
                lemma_jview_list(items@);
                assert(jview_list(items@) =~= Seq::new(v@.len(), |x: int| doc_json(v@[x])));
            }
            j
        },
        EmbeddingsInput::Doc(d) => doc_to_json(d),
    }
}

#[verifier::loop_isolation(false)]
fn embedding_type_to_json(t: &EmbeddingType) -> (j: Json)
    ensures
        j@ == embedding_type_json(*t),
{
    match t {
        EmbeddingType::Single(e) => Json::Str(String::from_str(embedding_type_name_str(e))),
        EmbeddingType::Multiple(v) => {
            let mut items: Vec<Json> = Vec::new();
            let n = v.len();
            let mut k: usize = 0;
            while k < n
                invariant
                    0 <= k <= n,
                    items@.len() == k,
                    forall|x: int|
                        0 <= x < k ==> jview(items@[x]) == JsonSpec::Str(
                            embedding_type_name(v@[x]),
                        ),
                decreases n - k,
            {
                items.push(Json::Str(String::from_str(embedding_type_name_str(&v[k]))));
                k = k + 1;
            }
            let j = Json::Arr(items);
            proof {
                lemma_jview_list(items@);
                assert(jview_list(items@) =~= Seq::new(
                    v@.len(),
                    |x: int| JsonSpec::Str(embedding_type_name(v@[x])),
                ));
            }
            j
        },
    }
}

/// The request as a document, exactly `embeddings_request_json`.
fn embeddings_request_to_json(r: &EmbeddingsRequest) -> (j: Json)
    ensures
        j@ == embeddings_request_json(*r),
{
    let mut fields: Vec<(String, Json)> = Vec::new();
    fields.push((String::from_str("model"), Json::Str(String::from_str(model_name_str(&r.model)))));
    let ij = input_to_json(&r.input);
    fields.push((String::from_str("input"), ij));
    match &r.embedding_type {
        Some(t) => {
            let tj = embedding_type_to_json(t);
            fields.push((String::from_str("embedding_type"), tj));
        },
        None => {},
    }
    match &r.normalized {
        Some(b) => {
            fields.push((String::from_str("normalized"), Json::Bool(*b)));
        },
        None => {},
    }
    let j = Json::Obj(fields);
    proof {
        lemma_jview_fields(fields@);
        assert(jview(j) matches JsonSpec::Obj(fs) && fs =~= embeddings_request_json(*r)->Obj_0);
    }
    j
}

// ---------- the response ----------

/// One embedding of the response: its place in the input order, the vector
/// as the number literals the body carried, and the server's kind label.
#[derive(Debug)]
pub struct Embedding {
    pub index: usize,
    pub embedding: Vec<String>,
    pub object: String,
}

pub struct EmbeddingV {
    pub index: usize,
    pub embedding: Seq<Seq<char>>,
    pub object: Seq<char>,
}

impl View for Embedding {
    type V = EmbeddingV;

    open spec fn view(&self) -> EmbeddingV {
        (EmbeddingV {
            index: self.index,
            embedding: strs_view(self.embedding@),
            object: self.object@,
        })
    }
}

/// The embeddings endpoint's success body.
#[derive(Debug)]
pub struct EmbeddingsResponse {
    pub model: String,
    pub data: Vec<Embedding>,
    pub usage: Usage,
}

pub struct EmbeddingsResponseV {
    pub model: Seq<char>,
    pub data: Seq<EmbeddingV>,
    pub usage: Usage,
}

impl View for EmbeddingsResponse {
    type V = EmbeddingsResponseV;

    open spec fn view(&self) -> EmbeddingsResponseV {
        (EmbeddingsResponseV {
            model: self.model@,
            data: Seq::new(self.data@.len(), |i: int| self.data@[i]@),
            usage: self.usage,
        })
    }
}

/// Token accounting as the body carries it: two integer members.
pub open spec fn dec_usage(j: JsonSpec) -> Option<Usage> {
    match (spec_get(j, "prompt_tokens"@), spec_get(j, "total_tokens"@)) {
        (Some(pj), Some(tj)) => match (spec_int_of(pj), spec_int_of(tj)) {
            (Some(pv), Some(tv)) => if i32::MIN <= pv <= i32::MAX && i32::MIN <= tv <= i32::MAX {
                Some(Usage { prompt_tokens: pv as i32, total_tokens: tv as i32 })
            } else {
                None
            },
            _ => None,
        },
        _ => None,
    }
}

pub fn usage_from_json(j: &Json) -> (r: Option<Usage>)
    ensures
        r == dec_usage(j@),
{
    let pj = match get_field(j, "prompt_tokens") {
        Some(x) => x,
        None => {
            return None;
        },
    };
    let tj = match get_field(j, "total_tokens") {
        Some(x) => x,
        None => {
            return None;
        },
    };
    let pv = match get_int(pj) {
        Some(v) => v,
        None => {
            return None;
        },
    };
    let tv = match get_int(tj) {
        Some(v) => v,
        None => {
            return None;
        },
    };
    if pv < -2147483648i64 || pv > 2147483647i64 || tv < -2147483648i64 || tv > 2147483647i64 {
        return None;
    }
    Some(Usage { prompt_tokens: pv as i32, total_tokens: tv as i32 })
}

/// The texts of a run of number nodes; nothing if any node is not a number.
pub open spec fn num_texts(items: Seq<JsonSpec>) -> Option<Seq<Seq<char>>>
    decreases items.len(),
{
    if items.len() == 0 {
        Some(Seq::empty())
    } else {
        match num_texts(items.drop_last()) {
            Some(pre) => match items.last() {
                JsonSpec::Num(t) => Some(pre.push(t)),
                _ => None,
            },
            None => None,
        }
    }
}

#[verifier::loop_isolation(false)]
fn num_texts_from_json(items: &Vec<Json>) -> (r: Option<Vec<String>>)
    ensures
        (match r {
            Some(v) => num_texts(jview_list(items@)) == Some(strs_view(v@)),
            None => num_texts(jview_list(items@)) is None,
        }),
{
    let ghost jitems: Seq<JsonSpec> = jview_list(items@);
    proof {
        lemma_jview_list(items@);
    }
    let mut acc: Vec<String> = Vec::new();
    let n = items.len();
    let mut k: usize = 0;
    while k < n
        invariant
            0 <= k <= n,
            num_texts(jitems.subrange(0, k as int)) == Some(strs_view(acc@)),
        decreases n - k,
    {
        proof {
            assert(jitems.subrange(0, k + 1 as int).drop_last() =~= jitems.subrange(0, k as int));
        }
        match &items[k] {
            Json::Num(t) => {
                acc.push(t.clone());
                proof {
                    assert(strs_view(acc@) =~= strs_view(acc@.drop_last()).push(t@));
                }
            },
            _ => {
                proof {
                    assert(jitems[k as int] == jview(items@[k as int]));
                    lemma_num_texts_prefix_none(jitems, k as int);
                }
                return None;
            },
        }
        k = k + 1;
    }
    proof {
        assert(jitems.subrange(0, n as int) =~= jitems);
    }
    Some(acc)
}

proof fn lemma_num_texts_prefix_none(items: Seq<JsonSpec>, k: int)
    requires
        0 <= k < items.len(),
        !(items[k] is Num),
    ensures
        num_texts(items) is None,
    decreases items.len(),
{
    if k < items.len() - 1 {
        assert(items.drop_last()[k] == items[k]);
        lemma_num_texts_prefix_none(items.drop_last(), k);
    }
}

/// One embedding as the body carries it: index, vector, kind label.
pub open spec fn dec_embedding(j: JsonSpec) -> Option<EmbeddingV> {
    match (spec_get(j, "index"@), spec_get(j, "embedding"@), spec_get(j, "object"@)) {
        (Some(ij), Some(ej), Some(oj)) => match (spec_int_of(ij), ej, oj) {
            (Some(iv), JsonSpec::Arr(items), JsonSpec::Str(os)) => if 0 <= iv <= usize::MAX {
                match num_texts(items) {
                    Some(ts) => Some(
                        (EmbeddingV { index: iv as usize, embedding: ts, object: os }),
                    ),
                    None => None,
                }
            } else {
                None
            },
            _ => None,
        },
        _ => None,
    }
}

pub fn embedding_from_json(j: &Json) -> (r: Option<Embedding>)
    ensures
        (match r {
            Some(e) => dec_embedding(j@) == Some(e@),
            None => dec_embedding(j@) is None,
        }),
{
    let ij = match get_field(j, "index") {
        Some(x) => x,
        None => {
            return None;
        },
    };
    let ej = match get_field(j, "embedding") {
        Some(x) => x,
        None => {
            return None;
        },
    };
    let oj = match get_field(j, "object") {
        Some(x) => x,
        None => {
            return None;
        },
    };
    let iv = match get_int(ij) {
        Some(v) => v,
        None => {
            return None;
        },
    };
    if iv < 0 || (iv as u64) > (usize::MAX as u64) {
        return None;
    }
    let items = match ej {
        Json::Arr(items) => items,
        _ => {
            return None;
        },
    };
    let object = match oj {
        Json::Str(s) => s.clone(),
        _ => {
            return None;
        },
    };
    let texts = match num_texts_from_json(items) {
        Some(v) => v,
        None => {
            return None;
        },
    };
    Some(Embedding { index: iv as usize, embedding: texts, object })
}

/// The ordered run of embeddings of the body's data list.
pub open spec fn dec_embedding_list(items: Seq<JsonSpec>) -> Option<Seq<EmbeddingV>>
    decreases items.len(),
{
    if items.len() == 0 {
        Some(Seq::empty())
    } else {
        match dec_embedding_list(items.drop_last()) {
            Some(pre) => match dec_embedding(items.last()) {
                Some(e) => Some(pre.push(e)),
                None => None,
            },
            None => None,
        }
    }
}

proof fn lemma_dec_embedding_list_none(items: Seq<JsonSpec>, k: int)
    requires
        0 <= k < items.len(),
        dec_embedding(items[k]) is None,
    ensures
        dec_embedding_list(items) is None,
    decreases items.len(),
{
    if k < items.len() - 1 {
        assert(items.drop_last()[k] == items[k]);
        lemma_dec_embedding_list_none(items.drop_last(), k);
    }
}

#[verifier::loop_isolation(false)]
fn embedding_list_from_json(items: &Vec<Json>) -> (r: Option<Vec<Embedding>>)
    ensures
        (match r {
            Some(v) => dec_embedding_list(jview_list(items@)) == Some(
                Seq::new(v@.len(), |i: int| v@[i]@),
            ),
            None => dec_embedding_list(jview_list(items@)) is None,
        }),
{
    let ghost jitems: Seq<JsonSpec> = jview_list(items@);
    proof {
        lemma_jview_list(items@);
    }
    let mut acc: Vec<Embedding> = Vec::new();
    let n = items.len();
    let mut k: usize = 0;
    while k < n
        invariant
            0 <= k <= n,
            dec_embedding_list(jitems.subrange(0, k as int)) == Some(
                Seq::new(acc@.len(), |i: int| acc@[i]@),
            ),
        decreases n - k,
    {
        proof {
            assert(jitems.subrange(0, k + 1 as int).drop_last() =~= jitems.subrange(0, k as int));
        }
        match embedding_from_json(&items[k]) {
            Some(e) => {
                acc.push(e);
                proof {
                    assert(Seq::new(acc@.len(), |i: int| acc@[i]@) =~= Seq::new(
                        acc@.drop_last().len(),
                        |i: int| acc@.drop_last()[i]@,
                    ).push(acc@.last()@));
                }
            },
            None => {
                proof {
                    lemma_dec_embedding_list_none(jitems, k as int);
                }
                return None;
            },
        }
        k = k + 1;
    }
    proof {
        assert(jitems.subrange(0, n as int) =~= jitems);
    }
    Some(acc)
}

/// The whole documented success body of the embeddings endpoint.
pub open spec fn dec_embeddings_response(j: JsonSpec) -> Option<EmbeddingsResponseV> {
    match (spec_get(j, "model"@), spec_get(j, "data"@), spec_get(j, "usage"@)) {
        (Some(mj), Some(dj), Some(uj)) => match (mj, dj) {
            (JsonSpec::Str(m), JsonSpec::Arr(items)) => match (
                dec_embedding_list(items),
                dec_usage(uj),
            ) {
                (Some(ds), Some(u)) => Some((EmbeddingsResponseV { model: m, data: ds, usage: u })),
                _ => None,
            },
            _ => None,
        },
        _ => None,
    }
}

pub fn embeddings_response_from_json(j: &Json) -> (r: Option<EmbeddingsResponse>)
    ensures
        (match r {
            Some(resp) => dec_embeddings_response(j@) == Some(resp@),
            None => dec_embeddings_response(j@) is None,
        }),
{
    let mj = match get_field(j, "model") {
        Some(x) => x,
        None => {
            return None;
        },
    };
    let dj = match get_field(j, "data") {
        Some(x) => x,
        None => {
            return None;
        },
    };
    let uj = match get_field(j, "usage") {
        Some(x) => x,
        None => {
            return None;
        },
    };
    let model = match mj {
        Json::Str(s) => s.clone(),
        _ => {
            return None;
        },
    };
    let items = match dj {
        Json::Arr(items) => items,
        _ => {
            return None;
        },
    };
    let data = match embedding_list_from_json(items) {
        Some(v) => v,
        None => {
            return None;
        },
    };
    let usage = match usage_from_json(uj) {
        Some(u) => u,
        None => {
            return None;
        },
    };
    Some(EmbeddingsResponse { model, data, usage })
}

impl Jina {
    /// Builds the embeddings call: POST to the embeddings path with the
    /// request written as its documented body, under the default headers.
    pub fn embeddings(&self, request: &EmbeddingsRequest) -> (r: Result<
        PreparedRequest,
        JinaError,
    >)
        ensures
            (match r {
                Ok(p) => is_header_safe(self.api_key@) && p@.method == "POST"@ && p@.url
                    == self.base_url@ + "/v1/embeddings"@ && p@.headers == default_headers_spec(
                    self.api_key@,
                ) && p@.body == json_text(embeddings_request_json(*request)),
                Err(e) => !is_header_safe(self.api_key@) && (e matches
                    JinaError::ConstructionError(ConstructionError::InvalidHeaderValue(n))
                    && n@ == "Authorization"@),
            }),
    {
        let j = embeddings_request_to_json(request);
        self.post("/v1/embeddings", &j)
    }

    /// Sorts a received status and body into the embeddings endpoint's
    /// typed response or the one error the call fails with.
    pub fn embeddings_response(status: u16, body: &str) -> (r: Result<
        EmbeddingsResponse,
        JinaError,
    >)
        ensures
            (match r {
                Ok(resp) => is_success(status) && (spec_parse_json(body@) matches Some(doc)
                    && dec_embeddings_response(doc) == Some(resp@)),
                Err(e) => match e {
                    JinaError::HttpError(h) => !is_success(status) && h.status == status && (
                    match h.payload {
                        Some(p) => spec_parse_json(body@) == Some(p@),
                        None => spec_parse_json(body@) is None,
                    }),
                    JinaError::DeserializationError(_) => is_success(status) && (match
                        spec_parse_json(body@) {
                        Some(doc) => dec_embeddings_response(doc) is None,
                        None => true,
                    }),
                    _ => false,
                },
            }),
    {
        let j = match Jina::handle_response(status, body) {
            Ok(j) => j,
            Err(e) => {
                return Err(e);
            },
        };
        match embeddings_response_from_json(&j) {
            Some(resp) => Ok(resp),
            None => Err(
                JinaError::DeserializationError(
                    String::from_str("body does not hold an embeddings response"),
                ),
            ),
        }
    }
}

// ---------- the wire shapes of the input variants ----------

/// The four structural shapes an input serializes to.
#[derive(Debug, Clone, Copy, PartialEq, Eq, Structural)]
pub enum InputShape {
    SingleString,
    StringList,
    SingleDoc,
    DocList,
}

/// What a reader of the wire sees of an input value: a string, an object,
/// a list of strings, or a list of objects. An empty list reads as a list
/// of strings, the first shape that fits.
pub open spec fn input_shape_of(j: JsonSpec) -> Option<InputShape> {
    match j {
        JsonSpec::Str(_) => Some(InputShape::SingleString),
        JsonSpec::Obj(_) => Some(InputShape::SingleDoc),
        JsonSpec::Arr(items) => if forall|i: int| 0 <= i < items.len() ==> items[i] is Str {
            Some(InputShape::StringList)
        } else if forall|i: int| 0 <= i < items.len() ==> items[i] is Obj {
            Some(InputShape::DocList)
        } else {
            None
        },
        _ => None,
    }
}

/// Round trip of the discriminating structure: the shape on the wire gives
/// back the variant that was serialized. The one exception is an empty
/// document list, which the wire cannot tell from an empty string list; it
/// is left out here.
pub proof fn lemma_input_shape_round_trip(input: EmbeddingsInput)
    requires
        input matches EmbeddingsInput::DocArray(v) ==> v@.len() > 0,
    ensures
        input_shape_of(input_json(input)) == (match input {
            EmbeddingsInput::StringArray(_) => Some(InputShape::StringList),
            EmbeddingsInput::String(_) => Some(InputShape::SingleString),
            EmbeddingsInput::DocArray(_) => Some(InputShape::DocList),
            EmbeddingsInput::Doc(_) => Some(InputShape::SingleDoc),
        }),
{
    match input {
        EmbeddingsInput::StringArray(v) => {
            let items = input_json(input)->Arr_0;
            assert(forall|i: int| 0 <= i < items.len() ==> items[i] is Str);
        },
        EmbeddingsInput::DocArray(v) => {
            let items = input_json(input)->Arr_0;
            assert(forall|i: int| 0 <= i < items.len() ==> items[i] is Obj);
            assert(!(items[0] is Str));
        },
        EmbeddingsInput::String(_) => {},
        EmbeddingsInput::Doc(d) => {},
    }
}

/// Classifies a decoded input value by its wire shape, as `input_shape_of`.
#[verifier::loop_isolation(false)]
pub fn input_shape(j: &Json) -> (r: Option<InputShape>)
    ensures
        r == input_shape_of(j@),
{
    match j {
        Json::Str(_) => Some(InputShape::SingleString),
        Json::Obj(_) => Some(InputShape::SingleDoc),
        Json::Arr(items) => {
            let ghost jitems: Seq<JsonSpec> = jview_list(items@);
            proof {
                lemma_jview_list(items@);
            }
            let n = items.len();
            let mut all_str: bool = true;
            let mut all_obj: bool = true;
            let mut k: usize = 0;
            while k < n
                invariant
                    0 <= k <= n,
                    all_str == (forall|i: int| 0 <= i < k ==> jitems[i] is Str),
                    all_obj == (forall|i: int| 0 <= i < k ==> jitems[i] is Obj),
                decreases n - k,
            {
                proof {
                    assert(jitems[k as int] == jview(items@[k as int]));
                }
                match &items[k] {
                    Json::Str(_) => {
                        all_obj = false;
                    },
                    Json::Obj(_) => {
                        all_str = false;
                    },
                    _ => {
                        all_str = false;
                        all_obj = false;
                    },
                }
                k = k + 1;
            }
            if all_str {
                Some(InputShape::StringList)
            } else if all_obj {
                Some(InputShape::DocList)
            } else {
                None
            }
        },
        _ => None,
    }
}

} // verus!
