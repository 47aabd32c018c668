//! The decisions of the upsert, delete and search handlers, between the
//! request and the calls to the embedding models and the vector store.
use vstd::prelude::*;

use crate::model::question::{QuestionInput, UpsertRequest, upsert_error};
use crate::model::search::SearchRequest;
use crate::service::embedding::{html_text, html_to_text};
use crate::service::payload::{
    PointValue, entries_model, string_views, payload_entries, payload_of_json, question_payload, question_payload_json,
};
use base64::Engine;

use crate::text::{chars_of, find_first, find_first_exec, string_from_chars};

verus! {

// ---------------------------------------------------------------------------
// Search
// ---------------------------------------------------------------------------

/// An optional text that is given and not empty.
pub open spec fn provided(o: Option<String>) -> bool {
    o matches Some(s) && s@.len() > 0
}

/// The refusal message when neither a text nor a picture is given.
pub open spec fn no_query_message() -> Seq<char> {
    "query_text 或 query_image 至少需要一个"@
}

/// The refusal message when the number of results is out of range.
pub open spec fn top_k_message() -> Seq<char> {
    "top_k 必须在 1-100 之间"@
}

/// Why a search is refused before anything is computed, or `None`: it needs a
/// non-empty text or a non-empty picture, and between 1 and 100 results.
pub open spec fn search_error(req: SearchRequest) -> Option<Seq<char>> {
    if !provided(req.query_text) && !provided(req.query_image) {
        Some(no_query_message())
    } else if !(1 <= req.top_k <= 100) {
        Some(top_k_message())
    } else {
        None
    }
}

/// Which parts of a search are given.
#[derive(Debug, Clone, Copy, PartialEq, Eq, Structural)]
pub struct SearchKind {
    pub has_text: bool,
    pub has_image: bool,
}

fn is_provided(o: &Option<String>) -> (b: bool)
    ensures
        b == provided(*o),
{
    match o {
        Some(s) => !s.as_str().is_empty(),
        None => false,
    }
}

/// Accepts a search and says whether it has a text and a picture, or says
/// why it is refused.
pub fn check_search_request(req: &SearchRequest) -> (r: Result<SearchKind, String>)
    ensures
        r is Ok <==> search_error(*req) is None,
        r matches Err(m) ==> search_error(*req) == Some(m@),
        r matches Ok(k) ==> k.has_text == provided(req.query_text) && k.has_image == provided(
            req.query_image,
        ),
{
    let has_text = is_provided(&req.query_text);
    let has_image = is_provided(&req.query_image);
    if !has_text && !has_image {
        return Err(String::from_str("query_text 或 query_image 至少需要一个"));
    }
    if !(1 <= req.top_k && req.top_k <= 100) {
        return Err(String::from_str("top_k 必须在 1-100 之间"));
    }
    Ok(SearchKind { has_text, has_image })
}

/// The marker before the payload of a `data:` URL.
pub open spec fn base64_marker() -> Seq<char> {
    ";base64,"@
}

/// The base64 payload of a picture: what follows the first `;base64,`, or
/// the whole text when there is none.
pub open spec fn strip_data_url(s: Seq<char>) -> Seq<char> {
    match find_first(s, base64_marker()) {
        Some(i) => s.skip(i + base64_marker().len()),
        None => s,
    }
}

/// The base64 payload of a picture given as plain base64 or as a `data:` URL.
pub fn strip_data_url_prefix(b64: &str) -> (r: String)
    ensures
        r@ == strip_data_url(b64@),
{
    let v = chars_of(b64);
    let marker = chars_of(";base64,");
    match find_first_exec(&v, &marker) {
        Some(i) => {
            proof {
                crate::text::lemma_find_first_bound(v@, marker@);
                assert(find_first(v@, marker@) == Some(i as int));
                assert(i + marker@.len() <= v@.len());
            }
            assert(i + marker.len() <= v.len());
            let mut rest: Vec<char> = Vec::new();
            let mut k: usize = i + marker.len();
            let start: usize = k;
            while k < v.len()
                invariant
                    start <= k <= v.len(),
                    rest@ == v@.subrange(start as int, k as int),
                decreases v.len() - k,
            {
                rest.push(v[k]);
                k = k + 1;
                assert(rest@ =~= v@.subrange(start as int, k as int));
            }
            assert(rest@ =~= v@.skip(start as int));
            string_from_chars(rest.as_slice())
        },
        None => string_from_chars(v.as_slice()),
    }
}

#[verifier::external_type_specification]
#[verifier::external_body]
pub struct ExDecodeError(base64::DecodeError);

/// What the standard base64 engine (RFC 4648 alphabet, canonical padding
/// required) makes of `input`: the decoded bytes, or the text of the error
/// that it reports, as that error's `Display` writes it.
pub uninterp spec fn base64_decode(input: Seq<char>) -> Result<Seq<u8>, Seq<char>>;

/// `base64::engine::general_purpose::STANDARD.decode(input)`.
/// Trusted: it succeeds exactly when the named decoding does, with those
/// bytes.
#[verifier::external_body]
fn base64_standard_decode(input: &str) -> (r: Result<Vec<u8>, base64::DecodeError>)
    ensures
        r is Ok <==> base64_decode(input@) is Ok,
        r matches Ok(bytes) ==> (base64_decode(input@) matches Ok(b) && b == bytes@),
{
    base64::engine::general_purpose::STANDARD.decode(input)
}

/// The text of the error of `STANDARD.decode(input)`, as its `Display`
/// writes it, for an input that does not decode. It is taken from the input
/// (by decoding it again) so that it is a function of the input alone.
/// Trusted: it is the named error text.
#[verifier::external_body]
fn base64_error_text(input: &str) -> (r: String)
    requires
        base64_decode(input@) is Err,
    ensures
        r@ == base64_decode(input@)->Err_0,
{
    match base64::engine::general_purpose::STANDARD.decode(input) {
        Err(e) => e.to_string(),
        Ok(_) => String::new(),
    }
}

/// The prefix of the refusal message for a picture that does not decode.
pub open spec fn decode_failure_prefix() -> Seq<char> {
    "base64 解码失败: "@
}

/// What a search makes of its picture `b64`: the base64 payload, with any
/// `data:` URL prefix removed, decoded; or the refusal message, `base64
/// 解码失败: ` followed by the decoder's error text.
pub open spec fn query_image_result(b64: Seq<char>) -> Result<Seq<u8>, Seq<char>> {
    match base64_decode(strip_data_url(b64)) {
        Ok(bytes) => Ok(bytes),
        Err(text) => Err(decode_failure_prefix() + text),
    }
}

/// The picture bytes of a search, or the refusal message, as
/// `query_image_result` says.
pub fn decode_query_image(b64: &str) -> (r: Result<Vec<u8>, String>)
    ensures
        r matches Ok(bytes) ==> (query_image_result(b64@) matches Ok(b) && b == bytes@),
        r matches Err(m) ==> (query_image_result(b64@) matches Err(t) && t == m@),
        r is Ok <==> query_image_result(b64@) is Ok,
{
    let clean = strip_data_url_prefix(b64);
    match base64_standard_decode(clean.as_str()) {
        Ok(bytes) => Ok(bytes),
        Err(_) => {
            let m = String::from_str("base64 解码失败: ");
            let detail = base64_error_text(clean.as_str());
            let m = m.concat(detail.as_str());
            proof {
                reveal_strlit("base64 解码失败: ");
            }
            Err(m)
        },
    }
}

/// The default stem / analysis / knowledge weights: 0.6, 0.25 and 0.15
/// (`f32` bit patterns).
pub open spec fn default_weights() -> [u32; 3] {
    [0x3f19999au32, 0x3e800000u32, 0x3e19999au32]
}

/// The three weights of a search: the first three given, or the defaults.
/// Fewer than three given weights are not accepted.
pub fn effective_weights(weights_bits: &Option<Vec<u32>>) -> (r: [u32; 3])
    requires
        weights_bits matches Some(w) ==> w.len() >= 3,
    ensures
        weights_bits matches Some(w) ==> r@ == w@.take(3),
        weights_bits is None ==> r@ == default_weights()@,
{
    match weights_bits {
        Some(w) => {
            let r = [w[0], w[1], w[2]];
            assert(r@ =~= w@.take(3));
            r
        },
        None => {
            let r = [0x3f19999au32, 0x3e800000u32, 0x3e19999au32];
            assert(r@ =~= default_weights()@);
            r
        },
    }
}

// ---------------------------------------------------------------------------
// Upsert
// ---------------------------------------------------------------------------

/// The items joined with `sep` between consecutive ones.
pub open spec fn joined(items: Seq<Seq<char>>, sep: Seq<char>) -> Seq<char>
    decreases items.len(),
{
    if items.len() == 0 {
        Seq::empty()
    } else if items.len() == 1 {
        items[0]
    } else {
        joined(items.drop_last(), sep) + sep + items.last()
    }
}

/// The text embedded for the knowledge points: joined with `；`, empty when
/// there are none.
pub open spec fn knowledge_text_of(kps: Seq<String>) -> Seq<char> {
    joined(string_views(kps), "；"@)
}

/// The knowledge points joined with `；`.
pub fn knowledge_text(kps: &Vec<String>) -> (r: String)
    ensures
        r@ == knowledge_text_of(kps@),
{
    let sep = chars_of("；");
    let mut out: Vec<char> = Vec::new();
    let mut i: usize = 0;
    while i < kps.len()
        invariant
            i <= kps.len(),
            sep@ == "；"@,
            out@ == joined(string_views(kps@).take(i as int), "；"@),
        decreases kps.len() - i,
    {
        let item = chars_of(kps[i].as_str());
        let ghost before = out@;
        if i > 0 {
            let mut k: usize = 0;
            while k < sep.len()
                invariant
                    k <= sep.len(),
                    out@ == before + sep@.take(k as int),
                decreases sep.len() - k,
            {
                out.push(sep[k]);
                k = k + 1;
                assert(out@ =~= before + sep@.take(k as int));
            }
            assert(sep@.take(sep.len() as int) =~= sep@);
        }
        let ghost mid = out@;
        let mut k: usize = 0;
        while k < item.len()
            invariant
                k <= item.len(),
                out@ == mid + item@.take(k as int),
            decreases item.len() - k,
        {
            out.push(item[k]);
            k = k + 1;
            assert(out@ =~= mid + item@.take(k as int));
        }
        assert(item@.take(item.len() as int) =~= item@);
        assert(string_views(kps@).take(i + 1).drop_last() =~= string_views(kps@).take(i as int));
        if i == 0 {
            assert(out@ =~= joined(string_views(kps@).take(1), "；"@));
        }
        i = i + 1;
    }
    assert(string_views(kps@).take(kps.len() as int) =~= string_views(kps@));
    string_from_chars(out.as_slice())
}

/// The picture to fetch for a question: its URL when it is given and not empty.
pub open spec fn url_to_fetch(url: Option<String>) -> Option<Seq<char>> {
    match url {
        Some(u) => if u@.len() > 0 {
            Some(u@)
        } else {
            None
        },
        None => None,
    }
}

/// The content of an optional string.
pub open spec fn opt_view(o: Option<String>) -> Option<Seq<char>> {
    match o {
        Some(s) => Some(s@),
        None => None,
    }
}

/// What is embedded for each question of an accepted upsert, index by index.
#[derive(Debug)]
pub struct UpsertTexts {
    pub stems: Vec<String>,
    pub analyses: Vec<String>,
    pub knowledges: Vec<String>,
    pub image_urls: Vec<Option<String>>,
}

/// Accepts an upsert and gives, for each question, the plain text of its
/// stem and analysis, its joined knowledge points and the picture to fetch;
/// or says why it is refused.
pub fn prepare_upsert(req: &UpsertRequest) -> (r: Result<UpsertTexts, String>)
    ensures
        r is Ok <==> upsert_error(req.questions@) is None,
        r matches Err(m) ==> upsert_error(req.questions@) == Some(m@),
        r matches Ok(t) ==> {
            let qs = req.questions@;
            &&& t.stems.len() == qs.len()
            &&& t.analyses.len() == qs.len()
            &&& t.knowledges.len() == qs.len()
            &&& t.image_urls.len() == qs.len()
            &&& forall|i: int|
                #![trigger t.stems@[i]]
                #![trigger t.analyses@[i]]
                #![trigger t.knowledges@[i]]
                #![trigger t.image_urls@[i]]
                0 <= i < qs.len() ==> {
                    &&& t.stems@[i]@ == html_text(qs[i].stem@)
                    &&& t.analyses@[i]@ == html_text(qs[i].analysis@)
                    &&& t.knowledges@[i]@ == knowledge_text_of(qs[i].knowledge_points@)
                    &&& opt_view(t.image_urls@[i]) == url_to_fetch(qs[i].image_url)
                }
        },
{
    match req.validate() {
        Ok(()) => {},
        Err(m) => {
            return Err(m);
        },
    }
    let mut t = UpsertTexts {
        stems: Vec::new(),
        analyses: Vec::new(),
        knowledges: Vec::new(),
        image_urls: Vec::new(),
    };
    let mut i: usize = 0;
    while i < req.questions.len()
        invariant
            i <= req.questions.len(),
            t.stems.len() == i,
            t.analyses.len() == i,
            t.knowledges.len() == i,
            t.image_urls.len() == i,
            forall|j: int|
                0 <= j < i ==> {
                    &&& (#[trigger] t.stems@[j])@ == html_text(req.questions@[j].stem@)
                    &&& t.analyses@[j]@ == html_text(req.questions@[j].analysis@)
                    &&& t.knowledges@[j]@ == knowledge_text_of(
                        req.questions@[j].knowledge_points@,
                    )
                    &&& opt_view(t.image_urls@[j]) == url_to_fetch(req.questions@[j].image_url)
                },
        decreases req.questions.len() - i,
    {
        let q = &req.questions[i];
        t.stems.push(html_to_text(q.stem.as_str()));
        t.analyses.push(html_to_text(q.analysis.as_str()));
        t.knowledges.push(knowledge_text(&q.knowledge_points));
        let url = match &q.image_url {
            Some(u) => if u.as_str().is_empty() {
                None
            } else {
                Some(u.clone())
            },
            None => None,
        };
        t.image_urls.push(url);
        i = i + 1;
    }
    Ok(t)
}

/// The payload entries stored with a question's point; their keys are
/// distinct, as in the map that the store keeps.
pub fn point_payload(q: &QuestionInput) -> (r: Vec<(String, PointValue)>)
    ensures
        entries_model(r@) == payload_of_json(question_payload_json(*q)),
        forall|i: int, j: int|
            0 <= i < r@.len() && 0 <= j < r@.len() && #[trigger] r@[i].0@ == #[trigger] r@[j].0@
                ==> i == j,
{
    let json = question_payload(q);
    let r = payload_entries(&json);
    proof {
        reveal_strlit("difficult");
        reveal_strlit("grade_id");
        reveal_strlit("knowledge_points");
        reveal_strlit("ptype_id");
        reveal_strlit("question_id");
        reveal_strlit("stem");
        reveal_strlit("subject_id");
        let keys = payload_of_json(question_payload_json(*q));
        assert(keys.len() == 7);
        assert(keys[0].0.len() == 9 && keys[0].0[0] == 'd');
        assert(keys[1].0.len() == 8 && keys[1].0[0] == 'g');
        assert(keys[2].0.len() == 16 && keys[2].0[0] == 'k');
        assert(keys[3].0.len() == 8 && keys[3].0[0] == 'p');
        assert(keys[4].0.len() == 11 && keys[4].0[0] == 'q');
        assert(keys[5].0.len() == 4 && keys[5].0[0] == 's');
        assert(keys[6].0.len() == 10 && keys[6].0[0] == 's');
        assert forall|i: int, j: int|
            0 <= i < r@.len() && 0 <= j < r@.len() && #[trigger] r@[i].0@ == #[trigger] r@[j].0@
                implies i == j by {
            assert(r@[i].0@ == entries_model(r@)[i].0);
            assert(r@[j].0@ == entries_model(r@)[j].0);
        }
    }
    r
}

} // verus!
