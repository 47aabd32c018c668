//! The vector-store side of the index: the collection and its named vectors,
//! the filters and the fused query that a search runs, how a hit becomes a
//! result, and the steps that make sure the collection exists with the right
//! shape.
use vstd::prelude::*;

use crate::model::search::{SearchFilters, SearchResult};
use crate::service::payload::{
    StoredValue, stored_f32_bits, stored_str, stored_strings, stored_u64, string_views,
    value_list_to_strings, value_to_f32, value_to_str, value_to_u64,
};

verus! {

/// The collection that holds the questions.
pub const COLLECTION_NAME: &'static str = "question";

/// The named vector of the stem text.
pub const STEM_VECTOR: &'static str = "stem";

/// The named vector of the analysis text.
pub const ANALYSIS_VECTOR: &'static str = "analysis";

/// The named vector of the knowledge-point text.
pub const KNOWLEDGE_VECTOR: &'static str = "knowledge";

/// The named vector of the picture.
pub const IMAGE_VECTOR: &'static str = "image";

/// How many candidates each vector contributes beyond the results asked for.
pub const PREFETCH_MARGIN: u64 = 20;

// ---------------------------------------------------------------------------
// Filters
// ---------------------------------------------------------------------------

/// What a payload field must match.
#[derive(Debug)]
pub enum MatchValue {
    /// The field is this integer.
    Integer(i64),
    /// The field (a keyword or a list of keywords) holds this text.
    Text(String),
}

/// A condition on one payload field.
#[derive(Debug)]
pub struct FieldCondition {
    pub key: String,
    pub match_value: MatchValue,
}

/// Conditions that must all hold.
#[derive(Debug)]
pub struct Filter {
    pub must: Vec<FieldCondition>,
}

/// The content of a condition: the key and what it must match.
pub enum ConditionModel {
    Integer(Seq<char>, i64),
    Text(Seq<char>, Seq<char>),
}

/// The content of `c`.
pub open spec fn condition_model(c: FieldCondition) -> ConditionModel {
    match c.match_value {
        MatchValue::Integer(i) => ConditionModel::Integer(c.key@, i),
        MatchValue::Text(t) => ConditionModel::Text(c.key@, t@),
    }
}

/// The contents of a list of conditions.
pub open spec fn conditions_model(cs: Seq<FieldCondition>) -> Seq<ConditionModel> {
    Seq::new(cs.len(), |i: int| condition_model(cs[i]))
}

/// The equality condition for an optional id, when it is given; the id is
/// compared as the `i64` that it casts to.
pub open spec fn id_condition(key: Seq<char>, v: Option<u64>) -> Seq<ConditionModel> {
    match v {
        Some(n) => seq![ConditionModel::Integer(key, n as i64)],
        None => Seq::empty(),
    }
}

/// The conditions of a search's filters, in the order subject, grade, type,
/// knowledge point: one for each that is given.
pub open spec fn filter_conditions(f: SearchFilters) -> Seq<ConditionModel> {
    id_condition("subject_id"@, f.subject_id) + id_condition("grade_id"@, f.grade_id)
        + id_condition("ptype_id"@, f.ptype_id) + match f.knowledge_point {
        Some(k) => seq![ConditionModel::Text("knowledge_points"@, k@)],
        None => Seq::empty(),
    }
}

/// The conditions of a filter, or `None` for no filter.
pub open spec fn filter_model(f: Option<Filter>) -> Option<Seq<ConditionModel>> {
    match f {
        Some(flt) => Some(conditions_model(flt.must@)),
        None => None,
    }
}

/// The filter that a search's filters ask for: `None` when no filters or no
/// conditions are given, else all the given conditions.
pub open spec fn search_filter(filters: Option<&SearchFilters>) -> Option<Seq<ConditionModel>> {
    match filters {
        Some(f) => if filter_conditions(*f).len() == 0 {
            None
        } else {
            Some(filter_conditions(*f))
        },
        None => None,
    }
}

/// The condition that the field `key` equals `val`.
pub fn condition_eq(key: &str, val: i64) -> (r: FieldCondition)
    ensures
        condition_model(r) == ConditionModel::Integer(key@, val),
{
    FieldCondition { key: String::from_str(key), match_value: MatchValue::Integer(val) }
}

/// The filter of a search: all the given conditions, or none at all when no
/// filters or no conditions are given.
pub fn build_filter(filters: Option<&SearchFilters>) -> (r: Option<Filter>)
    ensures
        filters is None ==> r is None,
        filters matches Some(f) ==> (r is None <==> filter_conditions(*f).len() == 0),
        filters matches Some(f) ==> (r matches Some(flt) ==> conditions_model(flt.must@)
            == filter_conditions(*f)),
        filter_model(r) == search_filter(filters),
{
    let f = match filters {
        Some(f) => f,
        None => {
            return None;
        },
    };
    let mut conditions: Vec<FieldCondition> = Vec::new();
    let ghost mut expected: Seq<ConditionModel> = Seq::empty();
    if let Some(sid) = f.subject_id {
        conditions.push(condition_eq("subject_id", sid as i64));
    }
    proof {
        expected = expected + id_condition("subject_id"@, f.subject_id);
    }
    assert(conditions_model(conditions@) =~= expected);
    if let Some(gid) = f.grade_id {
        conditions.push(condition_eq("grade_id", gid as i64));
    }
    proof {
        expected = expected + id_condition("grade_id"@, f.grade_id);
    }
    assert(conditions_model(conditions@) =~= expected);
    if let Some(ptid) = f.ptype_id {
        conditions.push(condition_eq("ptype_id", ptid as i64));
    }
    proof {
        expected = expected + id_condition("ptype_id"@, f.ptype_id);
    }
    assert(conditions_model(conditions@) =~= expected);
    match &f.knowledge_point {
        Some(kp) => {
            conditions.push(
                FieldCondition {
                    key: String::from_str("knowledge_points"),
                    match_value: MatchValue::Text(kp.clone()),
                },
            );
        },
        None => {},
    }
    assert(conditions_model(conditions@) =~= filter_conditions(*f));
    if conditions.len() == 0 {
        None
    } else {
        Some(Filter { must: conditions })
    }
}

// ---------------------------------------------------------------------------
// The fused query
// ---------------------------------------------------------------------------

/// One vector search whose candidates are fused into the result; the query
/// vector itself is attached by the caller.
#[derive(Debug)]
pub struct PrefetchPlan {
    /// The named vector searched.
    pub using: String,
    /// The conditions that its candidates must meet.
    pub filter: Option<Filter>,
    pub limit: u64,
    /// The lowest score kept, an `f32` bit pattern.
    pub score_threshold_bits: u32,
    /// The weight of this search in the reciprocal-rank fusion, an `f32` bit
    /// pattern.
    pub weight_bits: u32,
}

/// A search run as weighted reciprocal-rank fusion of several vector
/// searches; `filter` applies to the fused result.
#[derive(Debug)]
pub struct QueryPlan {
    pub prefetch: Vec<PrefetchPlan>,
    pub filter: Option<Filter>,
    pub limit: u64,
    pub score_threshold_bits: u32,
}

/// The fusion weight of the picture search: 1.0 (an `f32` bit pattern), the
/// weight that every search has in an unweighted reciprocal-rank fusion. The
/// three text weights are handed in scaled to average 1.0 as well, so equal
/// text weights fuse the four searches exactly as unweighted fusion does, and
/// the fused score keeps its range of about 0 to 2.
pub const IMAGE_FUSION_WEIGHT_BITS: u32 = 0x3f80_0000;

/// The prefetch of the named vector `name`, under the search's filters.
pub fn prefetch_for(
    name: &str,
    limit: u64,
    threshold_bits: u32,
    weight_bits: u32,
    filters: Option<&SearchFilters>,
) -> (r: PrefetchPlan)
    ensures
        r.using@ == name@,
        filter_model(r.filter) == search_filter(filters),
        r.limit == limit,
        r.score_threshold_bits == threshold_bits,
        r.weight_bits == weight_bits,
{
    PrefetchPlan {
        using: String::from_str(name),
        filter: build_filter(filters),
        limit,
        score_threshold_bits: threshold_bits,
        weight_bits,
    }
}

/// The fused query of a search for `top_k` results: the stem, analysis and
/// knowledge vectors, weighted by the three search weights in that order, and
/// the picture vector, weighted 1.0, when a picture is given. Each vector
/// contributes `top_k + 20` candidates, and the fusion keeps `top_k`; the
/// filters hold of every one of these searches and of the fused result.
pub fn search_plan(
    has_image: bool,
    top_k: u64,
    score_threshold_bits: u32,
    weights_bits: [u32; 3],
    filters: Option<&SearchFilters>,
) -> (r: QueryPlan)
    requires
        top_k <= u64::MAX - PREFETCH_MARGIN,
    ensures
        r.prefetch.len() == if has_image {
            4int
        } else {
            3int
        },
        r.prefetch@[0].using@ == STEM_VECTOR@,
        r.prefetch@[1].using@ == ANALYSIS_VECTOR@,
        r.prefetch@[2].using@ == KNOWLEDGE_VECTOR@,
        has_image ==> r.prefetch@[3].using@ == IMAGE_VECTOR@,
        forall|i: int| 0 <= i < 3 ==> (#[trigger] r.prefetch@[i]).weight_bits == weights_bits[i],
        has_image ==> r.prefetch@[3].weight_bits == IMAGE_FUSION_WEIGHT_BITS,
        forall|i: int|
            0 <= i < r.prefetch.len() ==> (#[trigger] r.prefetch@[i]).limit == top_k
                + PREFETCH_MARGIN && r.prefetch@[i].score_threshold_bits
                == score_threshold_bits,
        forall|i: int|
            0 <= i < r.prefetch.len() ==> filter_model((#[trigger] r.prefetch@[i]).filter)
                == search_filter(filters),
        filter_model(r.filter) == search_filter(filters),
        r.limit == top_k,
        r.score_threshold_bits == score_threshold_bits,
{
    let limit = top_k + PREFETCH_MARGIN;
    let filter = build_filter(filters);
    let mut prefetch: Vec<PrefetchPlan> = Vec::new();
    prefetch.push(prefetch_for(STEM_VECTOR, limit, score_threshold_bits, weights_bits[0], filters));
    prefetch.push(prefetch_for(ANALYSIS_VECTOR, limit, score_threshold_bits, weights_bits[1], filters));
    prefetch.push(prefetch_for(KNOWLEDGE_VECTOR, limit, score_threshold_bits, weights_bits[2], filters));
    if has_image {
        prefetch.push(
            prefetch_for(
                IMAGE_VECTOR,
                limit,
                score_threshold_bits,
                IMAGE_FUSION_WEIGHT_BITS,
                filters,
            ),
        );
    }
    QueryPlan { prefetch, filter, limit: top_k, score_threshold_bits }
}

// ---------------------------------------------------------------------------
// Search hits
// ---------------------------------------------------------------------------

/// The id of a point.
#[derive(Debug)]
pub enum PointId {
    Num(u64),
    Uuid(String),
}

/// A search hit: the point's id, its payload (keys are distinct), and the
/// fused score (an `f32` bit pattern).
#[derive(Debug)]
pub struct ScoredPoint {
    pub id: Option<PointId>,
    pub payload: Vec<(String, StoredValue)>,
    pub score_bits: u32,
}

/// The value of the first payload entry at or after `i` whose key is `key`.
pub open spec fn lookup_from(entries: Seq<(String, StoredValue)>, key: Seq<char>, i: int) -> Option<
    StoredValue,
>
    decreases entries.len() - i,
{
    if i < 0 || i >= entries.len() {
        None
    } else if entries[i].0@ == key {
        Some(entries[i].1)
    } else {
        lookup_from(entries, key, i + 1)
    }
}

/// The payload value under `key`.
pub open spec fn payload_get(entries: Seq<(String, StoredValue)>, key: Seq<char>) -> Option<
    StoredValue,
> {
    lookup_from(entries, key, 0)
}

/// The content of a search result.
pub struct ResultModel {
    pub question_id: u64,
    pub stem: Seq<char>,
    pub score_bits: u32,
    pub subject_id: Option<u64>,
    pub grade_id: Option<u64>,
    pub knowledge_points: Seq<Seq<char>>,
    pub ptype_id: Option<u64>,
    pub difficult_bits: Option<u32>,
}

/// The content of `r`.
pub open spec fn result_model(r: SearchResult) -> ResultModel {
    ResultModel {
        question_id: r.question_id,
        stem: r.stem@,
        score_bits: r.score_bits,
        subject_id: r.subject_id,
        grade_id: r.grade_id,
        knowledge_points: string_views(r.knowledge_points@),
        ptype_id: r.ptype_id,
        difficult_bits: r.difficult_bits,
    }
}

/// `f` applied to the value under `key`, when there is one and `f` gives one.
pub open spec fn field_u64(entries: Seq<(String, StoredValue)>, key: Seq<char>) -> Option<u64> {
    match payload_get(entries, key) {
        Some(v) => stored_u64(v),
        None => None,
    }
}

/// The result for a hit: only hits with a numeric id give one. The stem is
/// the text under `stem` (empty when there is none), the knowledge points
/// the texts under `knowledge_points`, the ids and the difficulty the numbers
/// under their keys.
pub open spec fn result_of(p: ScoredPoint) -> Option<ResultModel> {
    match p.id {
        Some(PointId::Num(n)) => Some(
            ResultModel {
                question_id: n,
                stem: match payload_get(p.payload@, "stem"@) {
                    Some(v) => match stored_str(v) {
                        Some(s) => s,
                        None => Seq::empty(),
                    },
                    None => Seq::empty(),
                },
                score_bits: p.score_bits,
                subject_id: field_u64(p.payload@, "subject_id"@),
                grade_id: field_u64(p.payload@, "grade_id"@),
                knowledge_points: match payload_get(p.payload@, "knowledge_points"@) {
                    Some(v) => stored_strings(v),
                    None => Seq::empty(),
                },
                ptype_id: field_u64(p.payload@, "ptype_id"@),
                difficult_bits: match payload_get(p.payload@, "difficult"@) {
                    Some(v) => stored_f32_bits(v),
                    None => None,
                },
            },
        ),
        _ => None,
    }
}

/// The results of a list of hits, in order, skipping the hits without one.
pub open spec fn results_of(points: Seq<ScoredPoint>) -> Seq<ResultModel>
    decreases points.len(),
{
    if points.len() == 0 {
        Seq::empty()
    } else {
        let rest = results_of(points.drop_last());
        match result_of(points.last()) {
            Some(r) => rest.push(r),
            None => rest,
        }
    }
}

/// The payload value under `key`.
pub fn payload_lookup<'a>(entries: &'a Vec<(String, StoredValue)>, key: &str) -> (r: Option<
    &'a StoredValue,
>)
    ensures
        r matches Some(v) ==> payload_get(entries@, key@) == Some(*v),
        r is None ==> payload_get(entries@, key@) is None,
{
    let k = String::from_str(key);
    let mut i: usize = 0;
    while i < entries.len()
        invariant
            i <= entries.len(),
            k@ == key@,
            payload_get(entries@, key@) == lookup_from(entries@, key@, i as int),
        decreases entries.len() - i,
    {
        if entries[i].0 == k {
            return Some(&entries[i].1);
        }
        i = i + 1;
    }
    None
}

fn lookup_u64(entries: &Vec<(String, StoredValue)>, key: &str) -> (r: Option<u64>)
    ensures
        r == field_u64(entries@, key@),
{
    match payload_lookup(entries, key) {
        Some(v) => value_to_u64(v),
        None => None,
    }
}

/// The result for one hit, when it has a numeric id.
pub fn result_for(p: &ScoredPoint) -> (r: Option<SearchResult>)
    ensures
        r matches Some(res) ==> result_of(*p) == Some(result_model(res)),
        r is None ==> result_of(*p) is None,
{
    let qid = match &p.id {
        Some(PointId::Num(n)) => *n,
        _ => {
            return None;
        },
    };
    let stem = match payload_lookup(&p.payload, "stem") {
        Some(v) => match value_to_str(v) {
            Some(s) => s,
            None => String::new(),
        },
        None => String::new(),
    };
    let knowledge_points = match payload_lookup(&p.payload, "knowledge_points") {
        Some(v) => value_list_to_strings(v),
        None => Vec::new(),
    };
    let difficult_bits = match payload_lookup(&p.payload, "difficult") {
        Some(v) => value_to_f32(v),
        None => None,
    };
    let res = SearchResult {
        question_id: qid,
        stem,
        score_bits: p.score_bits,
        subject_id: lookup_u64(&p.payload, "subject_id"),
        grade_id: lookup_u64(&p.payload, "grade_id"),
        knowledge_points,
        ptype_id: lookup_u64(&p.payload, "ptype_id"),
        difficult_bits,
    };
    assert(string_views(res.knowledge_points@) =~= result_of(*p)->Some_0.knowledge_points);
    Some(res)
}

/// The search results of a list of hits: one per hit with a numeric id, in
/// the order of the hits.
pub fn build_results(points: Vec<ScoredPoint>) -> (r: Vec<SearchResult>)
    ensures
        Seq::new(r@.len(), |i: int| result_model(r@[i])) == results_of(points@),
{
    let mut out: Vec<SearchResult> = Vec::new();
    let mut k: usize = 0;
    while k < points.len()
        invariant
            k <= points.len(),
            Seq::new(out@.len(), |i: int| result_model(out@[i])) == results_of(
                points@.take(k as int),
            ),
        decreases points.len() - k,
    {
        let ghost before = out@;
        assert(points@.take(k + 1).drop_last() =~= points@.take(k as int));
        match result_for(&points[k]) {
            Some(res) => {
                out.push(res);
            },
            None => {},
        }
        assert(Seq::new(out@.len(), |i: int| result_model(out@[i])) =~= results_of(
            points@.take(k + 1),
        )) by {
            assert(Seq::new(before.len(), |i: int| result_model(before[i])) == results_of(
                points@.take(k as int),
            ));
        }
        k = k + 1;
    }
    assert(points@.take(points.len() as int) =~= points@);
    out
}

// ---------------------------------------------------------------------------
// Making sure the collection exists
// ---------------------------------------------------------------------------

/// A named vector of the collection, compared by cosine distance.
#[derive(Debug)]
pub struct VectorSpec {
    pub name: String,
    pub size: u64,
}

/// A named vector of an existing collection.
#[derive(Debug)]
pub struct ExistingVector {
    pub name: String,
    pub size: u64,
    /// Whether it is compared by cosine distance.
    pub cosine: bool,
}

/// How an existing collection stores its vectors.
#[derive(Debug)]
pub enum VectorsShape {
    /// One unnamed vector.
    Single,
    /// Named vectors (a map, so the names are distinct).
    Named(Vec<ExistingVector>),
}

/// What the store answered to the last step.
#[derive(Debug)]
pub enum SetupEvent {
    /// The names of the collections that exist.
    Listed(Vec<String>),
    /// The vector configuration of the existing collection, or `None` when it
    /// could not be read or is absent.
    Described(Option<VectorsShape>),
    /// The existing collection was deleted.
    Deleted,
    /// The collection was created.
    Created,
}

/// What to ask the store next.
#[derive(Debug)]
pub enum SetupAction {
    /// Read the configuration of the existing collection.
    Describe,
    /// Delete the existing collection, whose shape is not the one needed.
    Delete,
    /// Create the collection with these named vectors.
    Create(Vec<VectorSpec>),
    /// The collection is ready.
    Ready,
}

/// The content of a vector spec.
pub open spec fn vector_spec_model(v: VectorSpec) -> (Seq<char>, u64) {
    (v.name@, v.size)
}

/// The named vectors of the collection: stem, analysis and knowledge of the
/// text dimension, and image of the image dimension.
pub open spec fn collection_vectors(text_dim: u64, image_dim: u64) -> Seq<(Seq<char>, u64)> {
    seq![
        (STEM_VECTOR@, text_dim),
        (ANALYSIS_VECTOR@, text_dim),
        (KNOWLEDGE_VECTOR@, text_dim),
        (IMAGE_VECTOR@, image_dim),
    ]
}

/// `(name, size)` is one of the collection's named vectors.
pub open spec fn is_collection_vector(name: Seq<char>, size: u64, text_dim: u64, image_dim: u64) -> bool {
    ||| (name == STEM_VECTOR@ && size == text_dim)
    ||| (name == ANALYSIS_VECTOR@ && size == text_dim)
    ||| (name == KNOWLEDGE_VECTOR@ && size == text_dim)
    ||| (name == IMAGE_VECTOR@ && size == image_dim)
}

/// `vs` holds a cosine vector named `name` of size `size`.
pub open spec fn has_vector(vs: Seq<ExistingVector>, name: Seq<char>, size: u64) -> bool {
    exists|j: int| 0 <= j < vs.len() && #[trigger] vs[j].name@ == name && vs[j].size == size && vs[j].cosine
}

/// The existing collection has exactly the shape needed: named vectors, each
/// of them one of `collection_vectors(text_dim, image_dim)` with its size and
/// cosine distance, and each of those present.
pub open spec fn shape_matches(shape: Option<VectorsShape>, text_dim: u64, image_dim: u64) -> bool {
    match shape {
        Some(VectorsShape::Named(vs)) => {
            &&& forall|j: int|
                0 <= j < vs@.len() ==> (#[trigger] vs@[j]).cosine && is_collection_vector(
                    vs@[j].name@,
                    vs@[j].size,
                    text_dim,
                    image_dim,
                )
            &&& has_vector(vs@, STEM_VECTOR@, text_dim)
            &&& has_vector(vs@, ANALYSIS_VECTOR@, text_dim)
            &&& has_vector(vs@, KNOWLEDGE_VECTOR@, text_dim)
            &&& has_vector(vs@, IMAGE_VECTOR@, image_dim)
        },
        _ => false,
    }
}

/// Whether `names` holds `name`.
pub open spec fn lists(names: Seq<String>, name: Seq<char>) -> bool {
    exists|i: int| 0 <= i < names.len() && #[trigger] names[i]@ == name
}

/// The next step of making sure the collection exists: if it is not listed,
/// create it; if it is, read its configuration and keep it when its named
/// vectors are exactly the ones needed, otherwise delete it and create it
/// anew.
pub open spec fn setup_next(event: SetupEvent, text_dim: u64, image_dim: u64) -> Option<
    Seq<(Seq<char>, u64)>,
> {
    match event {
        SetupEvent::Listed(names) => if lists(names@, COLLECTION_NAME@) {
            None
        } else {
            Some(collection_vectors(text_dim, image_dim))
        },
        SetupEvent::Deleted => Some(collection_vectors(text_dim, image_dim)),
        _ => None,
    }
}

fn names_contain(names: &Vec<String>, name: &str) -> (b: bool)
    ensures
        b == lists(names@, name@),
{
    let target = String::from_str(name);
    let mut i: usize = 0;
    while i < names.len()
        invariant
            i <= names.len(),
            target@ == name@,
            forall|j: int| 0 <= j < i ==> names@[j]@ != name@,
        decreases names.len() - i,
    {
        if names[i] == target {
            return true;
        }
        i = i + 1;
    }
    false
}

fn has_vector_exec(vs: &Vec<ExistingVector>, name: &str, size: u64) -> (b: bool)
    ensures
        b == has_vector(vs@, name@, size),
{
    let target = String::from_str(name);
    let mut j: usize = 0;
    while j < vs.len()
        invariant
            j <= vs.len(),
            target@ == name@,
            forall|k: int| 0 <= k < j ==> !(#[trigger] vs@[k].name@ == name@ && vs@[k].size == size
                && vs@[k].cosine),
        decreases vs.len() - j,
    {
        if vs[j].name == target && vs[j].size == size && vs[j].cosine {
            return true;
        }
        j = j + 1;
    }
    false
}

fn shape_matches_exec(vs: &Vec<ExistingVector>, text_dim: u64, image_dim: u64) -> (b: bool)
    ensures
        b == shape_matches(Some(VectorsShape::Named(*vs)), text_dim, image_dim),
{
    let stem = String::from_str(STEM_VECTOR);
    let analysis = String::from_str(ANALYSIS_VECTOR);
    let knowledge = String::from_str(KNOWLEDGE_VECTOR);
    let image = String::from_str(IMAGE_VECTOR);
    let mut j: usize = 0;
    while j < vs.len()
        invariant
            j <= vs.len(),
            stem@ == STEM_VECTOR@,
            analysis@ == ANALYSIS_VECTOR@,
            knowledge@ == KNOWLEDGE_VECTOR@,
            image@ == IMAGE_VECTOR@,
            forall|k: int|
                0 <= k < j ==> (#[trigger] vs@[k]).cosine && is_collection_vector(
                    vs@[k].name@,
                    vs@[k].size,
                    text_dim,
                    image_dim,
                ),
        decreases vs.len() - j,
    {
        let v = &vs[j];
        let known = (v.name == stem && v.size == text_dim) || (v.name == analysis && v.size
            == text_dim) || (v.name == knowledge && v.size == text_dim) || (v.name == image
            && v.size == image_dim);
        if !v.cosine || !known {
            return false;
        }
        j = j + 1;
    }
    has_vector_exec(vs, STEM_VECTOR, text_dim) && has_vector_exec(vs, ANALYSIS_VECTOR, text_dim)
        && has_vector_exec(vs, KNOWLEDGE_VECTOR, text_dim) && has_vector_exec(
        vs,
        IMAGE_VECTOR,
        image_dim,
    )
}

fn collection_vector_specs(text_dim: u64, image_dim: u64) -> (r: Vec<VectorSpec>)
    ensures
        Seq::new(r@.len(), |i: int| vector_spec_model(r@[i])) == collection_vectors(
            text_dim,
            image_dim,
        ),
{
    let mut r: Vec<VectorSpec> = Vec::new();
    r.push(VectorSpec { name: String::from_str(STEM_VECTOR), size: text_dim });
    r.push(VectorSpec { name: String::from_str(ANALYSIS_VECTOR), size: text_dim });
    r.push(VectorSpec { name: String::from_str(KNOWLEDGE_VECTOR), size: text_dim });
    r.push(VectorSpec { name: String::from_str(IMAGE_VECTOR), size: image_dim });
    assert(Seq::new(r@.len(), |i: int| vector_spec_model(r@[i])) =~= collection_vectors(
        text_dim,
        image_dim,
    ));
    r
}

/// The next step of making sure that the question collection exists with
/// the four named vectors: an existing collection of any other shape (other
/// names, sizes or distance, a vector missing or one too many) is deleted and
/// created anew.
pub fn ensure_collection_step(event: &SetupEvent, text_dim: u64, image_dim: u64) -> (r:
    SetupAction)
    ensures
        event matches SetupEvent::Listed(names) ==> (lists(names@, COLLECTION_NAME@) <==> r
            is Describe),
        event matches SetupEvent::Described(shape) ==> (shape_matches(*shape, text_dim, image_dim)
            <==> r is Ready),
        event matches SetupEvent::Described(shape) ==> (!shape_matches(
            *shape,
            text_dim,
            image_dim,
        ) <==> r is Delete),
        event is Created ==> r is Ready,
        r matches SetupAction::Create(specs) ==> setup_next(*event, text_dim, image_dim) == Some(
            Seq::new(specs@.len(), |i: int| vector_spec_model(specs@[i])),
        ),
        r is Create <==> setup_next(*event, text_dim, image_dim) is Some,
{
    match event {
        SetupEvent::Listed(names) => {
            if names_contain(names, COLLECTION_NAME) {
                SetupAction::Describe
            } else {
                SetupAction::Create(collection_vector_specs(text_dim, image_dim))
            }
        },
        SetupEvent::Described(shape) => {
            let keep = match shape {
                Some(VectorsShape::Named(vs)) => shape_matches_exec(vs, text_dim, image_dim),
                _ => false,
            };
            if keep {
                SetupAction::Ready
            } else {
                SetupAction::Delete
            }
        },
        SetupEvent::Deleted => SetupAction::Create(collection_vector_specs(text_dim, image_dim)),
        SetupEvent::Created => SetupAction::Ready,
    }
}

} // verus!
