//! Properties that relate several operations of the library.
use vstd::prelude::*;

use crate::handler::sync::{
    base64_marker, knowledge_text_of, no_query_message, query_image_result,
    search_error, strip_data_url, top_k_message,
};
use crate::model::search::{SearchFilters, SearchRequest};
use crate::service::embedding::{
    BLOCK_PATTERN, IMG_ALT_PATTERN, IMG_PATTERN, MATH_PATTERN, SCRIPT_PATTERN, STYLE_PATTERN,
    TAG_PATTERN, WS_PATTERN, decode_entities, html_text, regex_compiles, regex_replace_by_alt,
    regex_step,
};
use crate::model::question::{QuestionInput, first_question_error, question_error, upsert_error};
use crate::service::payload::{
    DoubleSource, JsonModel, JsonNumber, PointModel, f32_bits_finite, stored_f32_bits, StoredValue, payload_of_json, point_of_json,
    question_payload_json, stored_str, string_views, stored_strings, stored_u64, strings_json, texts_of,
};
use crate::service::qdrant::{
    COLLECTION_NAME, ConditionModel, ExistingVector, PointId, ScoredPoint, SetupEvent,
    VectorsShape, collection_vectors, filter_conditions, lists, lookup_from, result_of,
    setup_next, shape_matches,
};
use crate::text::{
    find_from, is_blank, lacks, lemma_blank_iff_trimmed_empty, lemma_replaced_at_start, lemma_replaced_prefix, lemma_replaced_without_first,
    lemma_replaced_without_last, matches_at, replaced,
};

verus! {

// ---------------------------------------------------------------------------
// What a search reports of what an upsert stored
// ---------------------------------------------------------------------------

/// How a value written to the store comes back in a search hit: the same
/// kind with the same content, element by element for a list; a double comes
/// back as a double, and one written from an `f32` has that `f32` as its `f32`
/// view (widening an `f32` to `f64` and narrowing it back is exact).
pub open spec fn stored_as(v: StoredValue, p: PointModel) -> bool
    decreases v,
{
    match v {
        StoredValue::Null => p is Null,
        StoredValue::Bool(a) => p == PointModel::Bool(a),
        StoredValue::Integer { value, .. } => p == PointModel::Integer(value),
        StoredValue::Double { as_f32_bits, .. } => match p {
            PointModel::Double(DoubleSource::FromF32(b)) => as_f32_bits == b,
            PointModel::Double(DoubleSource::FromU64(_)) => true,
            _ => false,
        },
        StoredValue::Text(s) => p == PointModel::Text(s@),
        StoredValue::List(items) => match p {
            PointModel::List(ps) => items@.len() == ps.len() && forall|i: int|
                0 <= i < ps.len() ==> stored_as(#[trigger] items@[i], ps[i]),
            _ => false,
        },
        StoredValue::Struct => false,
    }
}

/// No two payload entries share a key.
pub open spec fn distinct_keys(entries: Seq<(String, StoredValue)>) -> bool {
    forall|i: int, j: int|
        0 <= i < entries.len() && 0 <= j < entries.len() && #[trigger] entries[i].0@
            == #[trigger] entries[j].0@ ==> i == j
}

/// Every written entry comes back under its key, as `stored_as` says.
pub open spec fn holds_payload(
    entries: Seq<(String, StoredValue)>,
    written: Seq<(Seq<char>, PointModel)>,
) -> bool {
    forall|k: int|
        0 <= k < written.len() ==> exists|i: int|
            0 <= i < entries.len() && entries[i].0@ == (#[trigger] written[k]).0 && stored_as(
                entries[i].1,
                written[k].1,
            )
}

proof fn lemma_lookup_distinct(entries: Seq<(String, StoredValue)>, key: Seq<char>, i: int, j: int)
    requires
        distinct_keys(entries),
        0 <= j <= i < entries.len(),
        entries[i].0@ == key,
    ensures
        lookup_from(entries, key, j) == Some(entries[i].1),
    decreases i - j,
{
    if j < i {
        assert(entries[j].0@ != key);
        lemma_lookup_distinct(entries, key, i, j + 1);
    }
}

/// `v` is the text `s`.
pub open spec fn is_text(v: StoredValue, s: Seq<char>) -> bool {
    match v {
        StoredValue::Text(t) => t@ == s,
        _ => false,
    }
}

proof fn lemma_texts_of_all_text(items: Seq<StoredValue>, strs: Seq<Seq<char>>)
    requires
        items.len() == strs.len(),
        forall|i: int| 0 <= i < items.len() ==> is_text(#[trigger] items[i], strs[i]),
    ensures
        texts_of(items) == strs,
    decreases items.len(),
{
    if items.len() > 0 {
        let n = items.len() - 1;
        assert(is_text(items[n], strs[n]));
        lemma_texts_of_all_text(items.drop_last(), strs.drop_last());
        assert(strs.drop_last().push(strs.last()) =~= strs);
    } else {
        assert(strs =~= Seq::<Seq<char>>::empty());
    }
}

proof fn lemma_id_field(v: StoredValue, n: Option<u64>)
    requires
        n matches Some(x) ==> x <= i64::MAX,
        stored_as(v, point_of_json(crate::service::payload::opt_u64_json(n))),
    ensures
        stored_u64(v) == n,
{
}

/// The difficulty that a payload keeps: a finite `f32`; JSON has no other.
pub open spec fn kept_difficulty(d: Option<u32>) -> Option<u32> {
    match d {
        Some(b) => if f32_bits_finite(b) {
            Some(b)
        } else {
            None
        },
        None => None,
    }
}

/// A search hit on the point that an upsert wrote for `q` reports `q`: its
/// id, its stem, its subject, grade and type ids, its knowledge points, and
/// its difficulty when it is finite,
/// when the store gives back each written payload value under its key (and
/// the ids fit in `i64`, as the store's integers do).
pub proof fn lemma_hit_reports_stored_question(q: QuestionInput, p: ScoredPoint)
    requires
        q.id <= i64::MAX,
        q.subject_id matches Some(n) ==> n <= i64::MAX,
        q.grade_id matches Some(n) ==> n <= i64::MAX,
        q.ptype_id matches Some(n) ==> n <= i64::MAX,
        p.id == Some(PointId::Num(q.id)),
        distinct_keys(p.payload@),
        holds_payload(p.payload@, payload_of_json(question_payload_json(q))),
    ensures
        result_of(p) matches Some(r) && {
            &&& r.question_id == q.id
            &&& r.stem == q.stem@
            &&& r.subject_id == q.subject_id
            &&& r.grade_id == q.grade_id
            &&& r.ptype_id == q.ptype_id
            &&& r.knowledge_points == string_views(q.knowledge_points@)
            &&& r.score_bits == p.score_bits
            &&& r.difficult_bits == kept_difficulty(q.difficult_bits)
        },
{
    let e = p.payload@;
    let written = payload_of_json(question_payload_json(q));
    assert(written.len() == 7);
    // the members read back: difficult, grade_id, knowledge_points, ptype_id, stem, subject_id
    let w0 = written[0];
    let i0 = choose|i: int| 0 <= i < e.len() && e[i].0@ == w0.0 && stored_as(e[i].1, w0.1);
    lemma_lookup_distinct(e, "difficult"@, i0, 0);
    assert(stored_f32_bits(e[i0].1) == kept_difficulty(q.difficult_bits));
    let w1 = written[1];
    let w2 = written[2];
    let w3 = written[3];
    let w5 = written[5];
    let w6 = written[6];
    let i1 = choose|i: int| 0 <= i < e.len() && e[i].0@ == w1.0 && stored_as(e[i].1, w1.1);
    let i2 = choose|i: int| 0 <= i < e.len() && e[i].0@ == w2.0 && stored_as(e[i].1, w2.1);
    let i3 = choose|i: int| 0 <= i < e.len() && e[i].0@ == w3.0 && stored_as(e[i].1, w3.1);
    let i5 = choose|i: int| 0 <= i < e.len() && e[i].0@ == w5.0 && stored_as(e[i].1, w5.1);
    let i6 = choose|i: int| 0 <= i < e.len() && e[i].0@ == w6.0 && stored_as(e[i].1, w6.1);
    lemma_lookup_distinct(e, "grade_id"@, i1, 0);
    lemma_lookup_distinct(e, "knowledge_points"@, i2, 0);
    lemma_lookup_distinct(e, "ptype_id"@, i3, 0);
    lemma_lookup_distinct(e, "stem"@, i5, 0);
    lemma_lookup_distinct(e, "subject_id"@, i6, 0);
    lemma_id_field(e[i1].1, q.grade_id);
    lemma_id_field(e[i3].1, q.ptype_id);
    lemma_id_field(e[i6].1, q.subject_id);
    // the stem comes back as its text
    assert(stored_str(e[i5].1) == Some(q.stem@));
    // the knowledge points come back as a list of their texts
    let kps = q.knowledge_points@;
    let arr = strings_json(kps)->Array_0;
    let pm = point_of_json(strings_json(kps));
    assert(pm matches PointModel::List(ps) && ps.len() == kps.len());
    let v2 = e[i2].1;
    assert(v2 matches StoredValue::List(items) && items@.len() == kps.len());
    let items = v2->List_0@;
    let ps = pm->List_0;
    assert forall|i: int| 0 <= i < items.len() implies is_text(#[trigger] items[i], string_views(kps)[i]) by {
        assert(arr[i] == JsonModel::Str(kps[i]@));
        assert(ps[i] == point_of_json(arr[i]));
        assert(stored_as(items[i], ps[i]));
    }
    lemma_texts_of_all_text(items, string_views(kps));
    assert(stored_strings(v2) == string_views(kps));
}

/// An integer that fits `i64`, written as a payload value and read back as
/// an unsigned id, is itself; null, and a negative integer, read back as no
/// id.
pub proof fn lemma_integer_reads_back(n: u64, v: StoredValue, w: StoredValue, bits: u32)
    requires
        n <= i64::MAX,
    ensures
        stored_as(v, point_of_json(JsonModel::Number(JsonNumber::PosInt(n)))) ==> stored_u64(v)
            == Some(n),
        stored_as(w, point_of_json(JsonModel::Null)) ==> stored_u64(w) is None,
        stored_u64(StoredValue::Integer { value: -1i64, as_f32_bits: bits }) is None,
{
}

// ---------------------------------------------------------------------------
// Pictures given as data URLs
// ---------------------------------------------------------------------------

proof fn lemma_no_match_without_semicolon(s: Seq<char>, j: int)
    requires
        0 <= j,
        forall|i: int| 0 <= i < s.len() ==> s[i] != ';',
    ensures
        find_from(s, base64_marker(), j) is None,
    decreases s.len() + 1 - j,
{
    reveal_strlit(";base64,");
    if j + base64_marker().len() <= s.len() {
        assert(s.subrange(j, j + base64_marker().len())[0] == s[j]);
        lemma_no_match_without_semicolon(s, j + 1);
    }
}

/// Plain base64, which has no `;`, is decoded as it is.
pub proof fn lemma_plain_base64_unchanged(s: Seq<char>)
    requires
        forall|i: int| 0 <= i < s.len() ==> s[i] != ';',
    ensures
        strip_data_url(s) == s,
{
    lemma_no_match_without_semicolon(s, 0);
}

proof fn lemma_marker_found(s: Seq<char>, prefix: Seq<char>, j: int)
    requires
        0 <= j <= prefix.len(),
        forall|i: int| 0 <= i < prefix.len() ==> prefix[i] != ';',
        s.len() >= prefix.len() + base64_marker().len(),
        s.subrange(0, prefix.len() as int) == prefix,
        matches_at(s, prefix.len() as int, base64_marker()),
    ensures
        find_from(s, base64_marker(), j) == Some(prefix.len() as int),
    decreases prefix.len() - j,
{
    reveal_strlit(";base64,");
    if j < prefix.len() {
        assert(s[j] == prefix[j]);
        assert(s.subrange(j, j + base64_marker().len())[0] == s[j]);
        lemma_marker_found(s, prefix, j + 1);
    }
}

/// A data URL `<prefix>;base64,<payload>` whose prefix has no `;` gives its
/// payload.
pub proof fn lemma_data_url_payload(prefix: Seq<char>, payload: Seq<char>)
    requires
        forall|i: int| 0 <= i < prefix.len() ==> prefix[i] != ';',
    ensures
        strip_data_url(prefix + ";base64,"@ + payload) == payload,
{
    reveal_strlit(";base64,");
    assert(base64_marker() == ";base64,"@);
    let s = prefix + base64_marker() + payload;
    assert(s.subrange(0, prefix.len() as int) =~= prefix);
    assert(s.subrange(prefix.len() as int, (prefix.len() + base64_marker().len()) as int) =~= base64_marker());
    lemma_marker_found(s, prefix, 0);
    assert(s.skip((prefix.len() + base64_marker().len()) as int) =~= payload);
}

/// A picture given as plain base64 and the same base64 behind a data URL
/// `<prefix>;base64,` give the same result: the same bytes, or the same
/// refusal message.
pub proof fn lemma_data_url_same_result(prefix: Seq<char>, payload: Seq<char>)
    requires
        forall|i: int| 0 <= i < prefix.len() ==> prefix[i] != ';',
        forall|i: int| 0 <= i < payload.len() ==> payload[i] != ';',
    ensures
        query_image_result(prefix + ";base64,"@ + payload) == query_image_result(payload),
{
    reveal_strlit(";base64,");
    assert(base64_marker() == ";base64,"@);
    lemma_plain_base64_unchanged(payload);
    lemma_data_url_payload(prefix, payload);
}

// ---------------------------------------------------------------------------
// The collection
// ---------------------------------------------------------------------------

/// A collection is kept only when each of its named vectors is compared by
/// cosine distance and is `stem`, `analysis` or `knowledge` of the text size
/// or `image` of the picture size, and each of those four is there; a
/// collection with a single unnamed vector, or none described, is not kept.
pub proof fn lemma_kept_shape(shape: Option<VectorsShape>, text_dim: u64, image_dim: u64)
    ensures
        shape_matches(shape, text_dim, image_dim) ==> (shape matches Some(VectorsShape::Named(vs))
            && (forall|j: int|
            0 <= j < vs@.len() ==> (#[trigger] vs@[j]).cosine && ((vs@[j].name@ == "stem"@
                && vs@[j].size == text_dim) || (vs@[j].name@ == "analysis"@ && vs@[j].size
                == text_dim) || (vs@[j].name@ == "knowledge"@ && vs@[j].size == text_dim) || (
            vs@[j].name@ == "image"@ && vs@[j].size == image_dim))) && (exists|j: int|
            0 <= j < vs@.len() && #[trigger] vs@[j].name@ == "stem"@ && vs@[j].size == text_dim
                && vs@[j].cosine) && (exists|j: int|
            0 <= j < vs@.len() && #[trigger] vs@[j].name@ == "analysis"@ && vs@[j].size
                == text_dim && vs@[j].cosine) && (exists|j: int|
            0 <= j < vs@.len() && #[trigger] vs@[j].name@ == "knowledge"@ && vs@[j].size
                == text_dim && vs@[j].cosine) && (exists|j: int|
            0 <= j < vs@.len() && #[trigger] vs@[j].name@ == "image"@ && vs@[j].size == image_dim
                && vs@[j].cosine)),
{
}

/// A collection created with the vectors that `ensure_collection_step` asks
/// for (each by cosine distance) has exactly the shape needed, so the next
/// start keeps it.
pub proof fn lemma_created_collection_kept(vs: Vec<ExistingVector>, text_dim: u64, image_dim: u64)
    requires
        vs@.len() == collection_vectors(text_dim, image_dim).len(),
        forall|k: int|
            0 <= k < vs@.len() ==> (#[trigger] vs@[k]).cosine && (vs@[k].name@, vs@[k].size)
                == collection_vectors(text_dim, image_dim)[k],
    ensures
        shape_matches(Some(VectorsShape::Named(vs)), text_dim, image_dim),
{
    let cv = collection_vectors(text_dim, image_dim);
    assert(vs@[0].name@ == cv[0].0 && vs@[1].name@ == cv[1].0 && vs@[2].name@ == cv[2].0
        && vs@[3].name@ == cv[3].0);
    let shape = Some(VectorsShape::Named(vs));
    assert(shape matches Some(VectorsShape::Named(n)) && n == vs);
}

// ---------------------------------------------------------------------------
// Knowledge points
// ---------------------------------------------------------------------------

/// No knowledge points give an empty text, and a single one gives itself.
pub proof fn lemma_knowledge_text_small(kps: Seq<String>)
    ensures
        kps.len() == 0 ==> knowledge_text_of(kps).len() == 0,
        kps.len() == 1 ==> knowledge_text_of(kps) == kps[0]@,
{
}

/// Knowledge points are joined in order with `；`: appending a point to a
/// non-empty list appends `；` and that point to the text.
pub proof fn lemma_knowledge_text_append(kps: Seq<String>, p: String)
    requires
        kps.len() > 0,
    ensures
        knowledge_text_of(kps.push(p)) == knowledge_text_of(kps) + "；"@ + p@,
{
    let v = string_views(kps.push(p));
    assert(v.drop_last() =~= string_views(kps));
    assert(v.last() == p@);
}

// ---------------------------------------------------------------------------
// Search requests
// ---------------------------------------------------------------------------

/// The request gives a text that is not empty.
pub open spec fn given_text(req: SearchRequest) -> bool {
    req.query_text is Some && req.query_text->Some_0@.len() > 0
}

/// The request gives a picture that is not empty.
pub open spec fn given_picture(req: SearchRequest) -> bool {
    req.query_image is Some && req.query_image->Some_0@.len() > 0
}

/// A search is accepted exactly when it gives a non-empty text or a non-empty
/// picture and asks for 1 to 100 results, whatever else it gives; a refused
/// one is told that a query is missing when neither is given, and else that
/// the number of results is out of range.
pub proof fn lemma_search_acceptance(req: SearchRequest)
    ensures
        search_error(req) is None <==> ((given_text(req) || given_picture(req))
            && 1 <= req.top_k <= 100),
        search_error(req) matches Some(m) ==> (m == no_query_message() <==> (!given_text(req) && !given_picture(req))),
        search_error(req) matches Some(m) ==> (m == top_k_message() <==> ((given_text(req) || given_picture(req)) && !(1 <= req.top_k <= 100))),
{
    reveal_strlit("query_text 或 query_image 至少需要一个");
    reveal_strlit("top_k 必须在 1-100 之间");
    assert(no_query_message()[0] != top_k_message()[0]);
}

// ---------------------------------------------------------------------------
// Filters
// ---------------------------------------------------------------------------

/// The number of filter fields that are given.
pub open spec fn given_filter_fields(f: SearchFilters) -> nat {
    (if f.subject_id is Some { 1nat } else { 0nat }) + (if f.grade_id is Some { 1nat } else { 0nat })
        + (if f.ptype_id is Some { 1nat } else { 0nat }) + (if f.knowledge_point is Some {
        1nat
    } else {
        0nat
    })
}

/// Each given filter field becomes one condition on the payload key of its
/// own name (an id compared as the `i64` it casts to, a knowledge point as a
/// text it must hold), and every condition comes from a given field: one
/// condition per given field, none for a field that is not given.
pub proof fn lemma_filter_conditions_by_field(f: SearchFilters)
    ensures
        filter_conditions(f).len() == given_filter_fields(f),
        f.subject_id matches Some(n) ==> filter_conditions(f).contains(
            ConditionModel::Integer("subject_id"@, n as i64),
        ),
        f.grade_id matches Some(n) ==> filter_conditions(f).contains(
            ConditionModel::Integer("grade_id"@, n as i64),
        ),
        f.ptype_id matches Some(n) ==> filter_conditions(f).contains(
            ConditionModel::Integer("ptype_id"@, n as i64),
        ),
        f.knowledge_point matches Some(k) ==> filter_conditions(f).contains(
            ConditionModel::Text("knowledge_points"@, k@),
        ),
        forall|i: int|
            0 <= i < filter_conditions(f).len() ==> match #[trigger] filter_conditions(f)[i] {
                ConditionModel::Integer(key, v) => {
                    ||| (key == "subject_id"@ && (f.subject_id matches Some(n) && v == n as i64))
                    ||| (key == "grade_id"@ && (f.grade_id matches Some(n) && v == n as i64))
                    ||| (key == "ptype_id"@ && (f.ptype_id matches Some(n) && v == n as i64))
                },
                ConditionModel::Text(key, t) => key == "knowledge_points"@
                    && (f.knowledge_point matches Some(k) && t == k@),
            },
{
    let a = crate::service::qdrant::id_condition("subject_id"@, f.subject_id);
    let b = crate::service::qdrant::id_condition("grade_id"@, f.grade_id);
    let c = crate::service::qdrant::id_condition("ptype_id"@, f.ptype_id);
    let d: Seq<ConditionModel> = match f.knowledge_point {
        Some(k) => seq![ConditionModel::Text("knowledge_points"@, k@)],
        None => Seq::empty(),
    };
    let all = filter_conditions(f);
    assert(all == a + b + c + d);
    assert(all.len() == a.len() + b.len() + c.len() + d.len());
    if f.subject_id is Some {
        assert(all[0] == a[0]);
    }
    if f.grade_id is Some {
        assert(all[a.len() as int] == b[0]);
    }
    if f.ptype_id is Some {
        assert(all[(a.len() + b.len()) as int] == c[0]);
    }
    if f.knowledge_point is Some {
        assert(all[(a.len() + b.len() + c.len()) as int] == d[0]);
    }
    assert forall|i: int| 0 <= i < all.len() implies match #[trigger] all[i] {
        ConditionModel::Integer(key, v) => {
            ||| (key == "subject_id"@ && (f.subject_id matches Some(n) && v == n as i64))
            ||| (key == "grade_id"@ && (f.grade_id matches Some(n) && v == n as i64))
            ||| (key == "ptype_id"@ && (f.ptype_id matches Some(n) && v == n as i64))
        },
        ConditionModel::Text(key, t) => key == "knowledge_points"@ && (f.knowledge_point matches Some(
            k,
        ) && t == k@),
    } by {
        if i < a.len() {
            assert(all[i] == a[i]);
        } else if i < a.len() + b.len() {
            assert(all[i] == b[i - a.len()]);
        } else if i < a.len() + b.len() + c.len() {
            assert(all[i] == c[i - a.len() - b.len()]);
        } else {
            assert(all[i] == d[i - a.len() - b.len() - c.len()]);
        }
    }
}

// ---------------------------------------------------------------------------
// The collection listing
// ---------------------------------------------------------------------------

/// The collection is found wherever the listing names it: a listing that
/// holds its name at any position leads to reading its configuration (no
/// creation), and only a listing without its name leads to creating it.
pub proof fn lemma_listing_finds_collection(names: Vec<String>, text_dim: u64, image_dim: u64)
    ensures
        (exists|i: int| 0 <= i < names@.len() && #[trigger] names@[i]@ == COLLECTION_NAME@)
            ==> lists(names@, COLLECTION_NAME@) && setup_next(
            SetupEvent::Listed(names),
            text_dim,
            image_dim,
        ) is None,
        (forall|i: int| 0 <= i < names@.len() ==> #[trigger] names@[i]@ != COLLECTION_NAME@)
            ==> !lists(names@, COLLECTION_NAME@) && setup_next(
            SetupEvent::Listed(names),
            text_dim,
            image_dim,
        ) == Some(collection_vectors(text_dim, image_dim)),
{
}

// ---------------------------------------------------------------------------
// HTML to text
// ---------------------------------------------------------------------------

/// The text after the first `k + 1` of the cleaning steps, each with its
/// declared pattern: formula `alt`s, pictures, math spans, style elements,
/// script elements, block tags, other tags, entities, white space.
pub open spec fn html_stage(html: Seq<char>, k: nat) -> Seq<char>
    decreases k,
{
    if k == 0 {
        if regex_compiles(IMG_ALT_PATTERN@) {
            regex_replace_by_alt(IMG_ALT_PATTERN@, html)
        } else {
            html
        }
    } else {
        let t = html_stage(html, (k - 1) as nat);
        if k == 1 {
            regex_step(IMG_PATTERN@, t, "[图片]"@)
        } else if k == 2 {
            regex_step(MATH_PATTERN@, t, "$1"@)
        } else if k == 3 {
            regex_step(STYLE_PATTERN@, t, ""@)
        } else if k == 4 {
            regex_step(SCRIPT_PATTERN@, t, ""@)
        } else if k == 5 {
            regex_step(BLOCK_PATTERN@, t, " "@)
        } else if k == 6 {
            regex_step(TAG_PATTERN@, t, ""@)
        } else if k == 7 {
            decode_entities(t)
        } else {
            regex_step(WS_PATTERN@, t, " "@)
        }
    }
}

/// The plain text depends on the HTML only through each cleaning step in
/// turn: two HTML texts that agree after any one of the steps (the style
/// step removing what the style pattern matches, and so on) have the same
/// plain text; in particular what the style step removes never reaches it.
pub proof fn lemma_html_text_through_steps(a: Seq<char>, b: Seq<char>, k: nat)
    requires
        k <= 8,
        html_stage(a, k) == html_stage(b, k),
    ensures
        html_text(a) == html_text(b),
    decreases 8 - k,
{
    reveal_with_fuel(html_stage, 9);
    if k < 8 {
        assert(html_stage(a, k + 1) == html_stage(b, k + 1));
        lemma_html_text_through_steps(a, b, k + 1);
    }
}

// ---------------------------------------------------------------------------
// Character entities
// ---------------------------------------------------------------------------

/// The character entities that the plain text decodes, each with its
/// character.
pub open spec fn entity_pairs() -> Seq<(Seq<char>, Seq<char>)> {
    seq![
        ("&amp;"@, "&"@),
        ("&lt;"@, "<"@),
        ("&gt;"@, ">"@),
        ("&quot;"@, "\""@),
        ("&#92;"@, "\\"@),
        ("&apos;"@, "'"@),
        ("&nbsp;"@, " "@),
        ("&#xA0;"@, " "@),
    ]
}

/// `e` looks like an entity: `&`, then no `&` or `;`, then `;`.
pub open spec fn entity_shaped(e: Seq<char>) -> bool {
    &&& e.len() >= 2
    &&& e[0] == '&'
    &&& e.last() == ';'
    &&& lacks(e.drop_first(), '&')
    &&& lacks(e.drop_last(), ';')
}

proof fn lemma_entity_pairs_facts()
    ensures
        entity_pairs().len() == 8,
        forall|j: int| 0 <= j < 8 ==> entity_shaped(#[trigger] entity_pairs()[j].0),
        forall|j: int| 1 <= j < 8 ==> lacks(#[trigger] entity_pairs()[j].1, '&'),
        entity_pairs()[0].1 == seq!['&'],
        forall|i: int, j: int|
            0 <= i < 8 && 0 <= j < 8 && i != j ==> #[trigger] entity_pairs()[i].0
                != #[trigger] entity_pairs()[j].0,
{
    reveal_strlit("&amp;");
    reveal_strlit("&lt;");
    reveal_strlit("&gt;");
    reveal_strlit("&quot;");
    reveal_strlit("&#92;");
    reveal_strlit("&apos;");
    reveal_strlit("&nbsp;");
    reveal_strlit("&#xA0;");
    reveal_strlit("&");
    reveal_strlit("<");
    reveal_strlit(">");
    reveal_strlit("\"");
    reveal_strlit("\\");
    reveal_strlit("'");
    reveal_strlit(" ");
    let ps = entity_pairs();
    assert(ps[0].1 =~= seq!['&']);
    assert forall|j: int| 0 <= j < 8 implies entity_shaped(#[trigger] ps[j].0) by {
        let e = ps[j].0;
        assert forall|i: int| 0 <= i < e.drop_first().len() implies e.drop_first()[i] != '&' by {
            assert(e.drop_first()[i] == e[i + 1]);
        }
        assert forall|i: int| 0 <= i < e.drop_last().len() implies e.drop_last()[i] != ';' by {
            assert(e.drop_last()[i] == e[i]);
        }
    }
    assert forall|i: int, j: int|
        0 <= i < 8 && 0 <= j < 8 && i != j implies #[trigger] ps[i].0 != #[trigger] ps[j].0 by {
        if ps[i].0 == ps[j].0 {
            assert(ps[i].0.len() == ps[j].0.len());
            assert(ps[i].0[1] == ps[j].0[1]);
        }
    }
}

proof fn lemma_lacks_concat(a: Seq<char>, b: Seq<char>, c: char)
    requires
        lacks(a, c),
        lacks(b, c),
    ensures
        lacks(a + b, c),
{
    assert forall|i: int| 0 <= i < (a + b).len() implies (a + b)[i] != c by {
        if i < a.len() {
            assert((a + b)[i] == a[i]);
        } else {
            assert((a + b)[i] == b[i - a.len()]);
        }
    }
}

/// Another entity, after text without `&`, is left as it is.
proof fn lemma_other_entity_kept(
    a: Seq<char>,
    e: Seq<char>,
    b: Seq<char>,
    pat: Seq<char>,
    rep: Seq<char>,
)
    requires
        entity_shaped(e),
        entity_shaped(pat),
        e != pat,
        lacks(a, '&'),
        lacks(b, '&'),
    ensures
        replaced(a + e + b, pat, rep) == a + e + b,
{
    let eb = e + b;
    assert(a + e + b =~= a + eb);
    lemma_replaced_prefix(a, eb, pat, rep);
    if matches_at(eb, 0, pat) {
        let n = pat.len();
        let sub = eb.subrange(0, n as int);
        if n < e.len() {
            assert(sub[n - 1] == e[n - 1]);
            assert(e.drop_last()[n - 1] == e[n - 1]);
        } else if n > e.len() {
            assert(sub[e.len() - 1] == e[e.len() - 1]);
            assert(pat.drop_last()[e.len() - 1] == pat[e.len() - 1]);
        } else {
            assert(forall|i: int| 0 <= i < n ==> sub[i] == e[i]);
            assert(e =~= pat);
        }
    }
    let rest = eb.drop_first();
    assert(rest =~= e.drop_first() + b);
    lemma_lacks_concat(e.drop_first(), b, '&');
    lemma_replaced_without_first(rest, pat, rep);
    assert(seq![eb[0]] + rest =~= eb);
}

/// An entity, between texts without `&`, becomes its character.
proof fn lemma_entity_replaced(a: Seq<char>, e: Seq<char>, b: Seq<char>, rep: Seq<char>)
    requires
        entity_shaped(e),
        lacks(a, '&'),
        lacks(b, '&'),
    ensures
        replaced(a + e + b, e, rep) == a + rep + b,
{
    assert(a + e + b =~= a + (e + b));
    lemma_replaced_prefix(a, e + b, e, rep);
    lemma_replaced_at_start(e, b, rep);
    lemma_replaced_without_first(b, e, rep);
    assert(a + (rep + b) =~= a + rep + b);
}

/// After its entity is decoded, a text is left as it is by the later ones.
proof fn lemma_decoded_kept(a: Seq<char>, r: Seq<char>, b: Seq<char>, pat: Seq<char>, rep: Seq<char>)
    requires
        entity_shaped(pat),
        lacks(a, '&'),
        (lacks(r, '&') && lacks(b, '&')) || (r == seq!['&'] && lacks(b, ';')),
    ensures
        replaced(a + r + b, pat, rep) == a + r + b,
{
    if lacks(r, '&') && lacks(b, '&') {
        lemma_lacks_concat(a, r, '&');
        lemma_lacks_concat(a + r, b, '&');
        lemma_replaced_without_first(a + r + b, pat, rep);
    } else {
        assert(a + r + b =~= a + (r + b));
        lemma_replaced_prefix(a, r + b, pat, rep);
        assert(lacks(r, ';'));
        lemma_lacks_concat(r, b, ';');
        lemma_replaced_without_last(r + b, pat, rep);
        assert(a + (r + b) =~= a + r + b);
    }
}

proof fn lemma_entity_step(a: Seq<char>, b: Seq<char>, k: int, j: int)
    requires
        0 <= k < 8,
        0 <= j < 8,
        lacks(a, '&'),
        lacks(b, '&'),
        k == 0 ==> lacks(b, ';'),
    ensures
        j < k ==> replaced(a + entity_pairs()[k].0 + b, entity_pairs()[j].0, entity_pairs()[j].1)
            == a + entity_pairs()[k].0 + b,
        j == k ==> replaced(a + entity_pairs()[k].0 + b, entity_pairs()[j].0, entity_pairs()[j].1)
            == a + entity_pairs()[k].1 + b,
        j > k ==> replaced(a + entity_pairs()[k].1 + b, entity_pairs()[j].0, entity_pairs()[j].1)
            == a + entity_pairs()[k].1 + b,
{
    lemma_entity_pairs_facts();
    let ps = entity_pairs();
    assert(entity_shaped(ps[k].0));
    assert(entity_shaped(ps[j].0));
    if j < k {
        assert(ps[k].0 != ps[j].0);
        lemma_other_entity_kept(a, ps[k].0, b, ps[j].0, ps[j].1);
    } else if j == k {
        lemma_entity_replaced(a, ps[k].0, b, ps[k].1);
    } else {
        if k > 0 {
            assert(lacks(ps[k].1, '&'));
        }
        lemma_decoded_kept(a, ps[k].1, b, ps[j].0, ps[j].1);
    }
}

/// Each of the eight entities, between texts without `&`, decodes to its
/// character and nothing else changes (for `&amp;` the text after it also
/// has no `;`, since the `&` it leaves could begin another entity).
pub proof fn lemma_entity_decoded(a: Seq<char>, b: Seq<char>, k: int)
    requires
        0 <= k < 8,
        lacks(a, '&'),
        lacks(b, '&'),
        k == 0 ==> lacks(b, ';'),
    ensures
        decode_entities(a + entity_pairs()[k].0 + b) == a + entity_pairs()[k].1 + b,
{
    lemma_entity_step(a, b, k, 0);
    lemma_entity_step(a, b, k, 1);
    lemma_entity_step(a, b, k, 2);
    lemma_entity_step(a, b, k, 3);
    lemma_entity_step(a, b, k, 4);
    lemma_entity_step(a, b, k, 5);
    lemma_entity_step(a, b, k, 6);
    lemma_entity_step(a, b, k, 7);
}

// ---------------------------------------------------------------------------
// Upsert requests
// ---------------------------------------------------------------------------

/// A question is accepted exactly when its id is not 0 and neither its stem
/// nor its analysis is empty or only white space.
pub open spec fn acceptable_question(q: QuestionInput) -> bool {
    q.id != 0 && !is_blank(q.stem@) && !is_blank(q.analysis@)
}

proof fn lemma_question_acceptance(q: QuestionInput)
    ensures
        question_error(q) is None <==> acceptable_question(q),
{
    lemma_blank_iff_trimmed_empty(q.stem@);
    lemma_blank_iff_trimmed_empty(q.analysis@);
}

proof fn lemma_first_error_from(qs: Seq<QuestionInput>, i: int)
    requires
        0 <= i <= qs.len(),
    ensures
        first_question_error(qs, i) is None <==> (forall|j: int|
            i <= j < qs.len() ==> acceptable_question(#[trigger] qs[j])),
        first_question_error(qs, i) matches Some(m) ==> exists|k: int|
            i <= k < qs.len() && question_error(#[trigger] qs[k]) == Some(m) && forall|j: int|
                i <= j < k ==> acceptable_question(#[trigger] qs[j]),
    decreases qs.len() - i,
{
    if i < qs.len() {
        lemma_question_acceptance(qs[i]);
        lemma_first_error_from(qs, i + 1);
        if first_question_error(qs, i) is None {
            assert forall|j: int| i <= j < qs.len() implies acceptable_question(
                #[trigger] qs[j],
            ) by {
                if j > i {
                    assert(acceptable_question(qs[j]));
                }
            }
        }
        if question_error(qs[i]) is None {
            if let Some(m) = first_question_error(qs, i) {
                let k = choose|k: int|
                    i + 1 <= k < qs.len() && question_error(#[trigger] qs[k]) == Some(m) && forall|
                        j: int,
                    | i + 1 <= j < k ==> acceptable_question(#[trigger] qs[j]);
                assert forall|j: int| i <= j < k implies acceptable_question(#[trigger] qs[j]) by {
                    if j > i {
                        assert(acceptable_question(qs[j]));
                    }
                }
            }
        }
    }
}

/// An upsert is accepted exactly when it holds at least one question and
/// every question is acceptable; a refused one with questions is answered
/// with the refusal of its first unacceptable question.
pub proof fn lemma_upsert_acceptance(qs: Seq<QuestionInput>)
    ensures
        upsert_error(qs) is None <==> (qs.len() > 0 && forall|j: int|
            0 <= j < qs.len() ==> acceptable_question(#[trigger] qs[j])),
        upsert_error(qs) matches Some(m) ==> (qs.len() == 0 || exists|k: int|
            0 <= k < qs.len() && question_error(#[trigger] qs[k]) == Some(m) && forall|j: int|
                0 <= j < k ==> acceptable_question(#[trigger] qs[j])),
{
    lemma_first_error_from(qs, 0);
}

} // verus!
