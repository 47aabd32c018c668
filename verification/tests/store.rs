use qdrant_vector::handler::sync::point_payload;
use qdrant_vector::model::question::QuestionInput;
use qdrant_vector::model::search::SearchFilters;
use qdrant_vector::service::payload::{
    json_to_value, payload_entries, question_payload, value_list_to_strings, value_to_f32,
    value_to_str, value_to_u64, DoubleSource, JsonNumber, JsonValue, PointValue, StoredValue,
};
use qdrant_vector::service::qdrant::{
    build_filter, build_results, condition_eq, ensure_collection_step, prefetch_for, search_plan,
    ExistingVector, MatchValue, PointId, ScoredPoint, SetupAction, SetupEvent, VectorsShape,
    IMAGE_FUSION_WEIGHT_BITS,
};

fn sample_question() -> QuestionInput {
    QuestionInput {
        id: 1,
        ptype_id: Some(3),
        parent_id: None,
        stem: "<p>看图列式计算</p>".to_string(),
        analysis: "解析".to_string(),
        subject_id: Some(10001),
        grade_id: Some(1),
        difficult_bits: Some(0.3f32.to_bits()),
        knowledge_points: vec!["看图列式".to_string(), "减法".to_string()],
        image_url: None,
    }
}

fn text(s: &str) -> StoredValue {
    StoredValue::Text(s.to_string())
}

fn integer(i: i64) -> StoredValue {
    StoredValue::Integer { value: i, as_f32_bits: (i as f32).to_bits() }
}

#[test]
fn payload_members_in_key_order() {
    let json = question_payload(&sample_question());
    let members = match json {
        JsonValue::Object(m) => m,
        other => panic!("not an object: {:?}", other),
    };
    let keys: Vec<&str> = members.iter().map(|(k, _)| k.as_str()).collect();
    assert_eq!(
        keys,
        vec!["difficult", "grade_id", "knowledge_points", "ptype_id", "question_id", "stem", "subject_id"]
    );
    assert!(matches!(members[0].1, JsonValue::Number(JsonNumber::Float32(b)) if b == 0.3f32.to_bits()));
    assert!(matches!(members[4].1, JsonValue::Number(JsonNumber::PosInt(1))));
    assert!(matches!(&members[5].1, JsonValue::String(s) if s == "<p>看图列式计算</p>"));
}

#[test]
fn non_finite_difficulty_is_null() {
    let mut q = sample_question();
    q.difficult_bits = Some(f32::NAN.to_bits());
    let json = question_payload(&q);
    match json {
        JsonValue::Object(m) => assert!(matches!(m[0].1, JsonValue::Null)),
        _ => panic!("not an object"),
    }
    q.difficult_bits = None;
    match question_payload(&q) {
        JsonValue::Object(m) => assert!(matches!(m[0].1, JsonValue::Null)),
        _ => panic!("not an object"),
    }
}

#[test]
fn point_payload_converts_each_member() {
    let entries = point_payload(&sample_question());
    assert_eq!(entries.len(), 7);
    let mut keys: Vec<&str> = entries.iter().map(|(k, _)| k.as_str()).collect();
    keys.sort();
    keys.dedup();
    assert_eq!(keys.len(), 7);
    assert!(matches!(entries[0].1, PointValue::Double(DoubleSource::FromF32(b)) if b == 0.3f32.to_bits()));
    assert!(matches!(entries[1].1, PointValue::Integer(1)));
    match &entries[2].1 {
        PointValue::List(items) => {
            assert_eq!(items.len(), 2);
            assert!(matches!(&items[0], PointValue::Text(s) if s == "看图列式"));
        }
        other => panic!("not a list: {:?}", other),
    }
    assert!(matches!(entries[4].1, PointValue::Integer(1)));
    assert!(matches!(entries[6].1, PointValue::Integer(10001)));
}

#[test]
fn json_numbers_become_integers_or_doubles() {
    assert!(matches!(json_to_value(&JsonValue::Number(JsonNumber::PosInt(5))), PointValue::Integer(5)));
    assert!(matches!(
        json_to_value(&JsonValue::Number(JsonNumber::PosInt(i64::MAX as u64))),
        PointValue::Integer(i64::MAX)
    ));
    assert!(matches!(
        json_to_value(&JsonValue::Number(JsonNumber::PosInt(u64::MAX))),
        PointValue::Double(DoubleSource::FromU64(u64::MAX))
    ));
    assert!(matches!(json_to_value(&JsonValue::Number(JsonNumber::NegInt(-3))), PointValue::Integer(-3)));
}

#[test]
fn json_objects_become_null_and_arrays_nest() {
    let obj = JsonValue::Object(vec![("a".to_string(), JsonValue::Bool(true))]);
    assert!(matches!(json_to_value(&obj), PointValue::Null));
    let arr = JsonValue::Array(vec![JsonValue::Array(vec![JsonValue::Bool(false)]), obj]);
    match json_to_value(&arr) {
        PointValue::List(items) => {
            assert_eq!(items.len(), 2);
            assert!(matches!(&items[0], PointValue::List(inner) if inner.len() == 1 && matches!(inner[0], PointValue::Bool(false))));
            assert!(matches!(items[1], PointValue::Null));
        }
        other => panic!("not a list: {:?}", other),
    }
    assert!(payload_entries(&JsonValue::Null).is_empty());
}

#[test]
fn stored_values_read_back() {
    assert_eq!(value_to_str(&text("s")), Some("s".to_string()));
    assert_eq!(value_to_str(&integer(-42)), Some("-42".to_string()));
    assert_eq!(value_to_str(&integer(i64::MIN)), Some(i64::MIN.to_string()));
    let d = StoredValue::Double { as_u64: 3, as_f32_bits: 3.5f32.to_bits(), text: "3.5".to_string() };
    assert_eq!(value_to_str(&d), Some("3.5".to_string()));
    assert_eq!(value_to_str(&StoredValue::Bool(true)), None);
    assert_eq!(value_to_u64(&integer(7)), Some(7));
    assert_eq!(value_to_u64(&integer(-7)), None);
    assert_eq!(value_to_u64(&d), Some(3));
    assert_eq!(value_to_u64(&text("7")), None);
    assert_eq!(value_to_f32(&d), Some(3.5f32.to_bits()));
    assert_eq!(value_to_f32(&integer(2)), Some(2.0f32.to_bits()));
    assert_eq!(value_to_f32(&StoredValue::Null), None);
    let list = StoredValue::List(vec![text("a"), StoredValue::Null, integer(3), StoredValue::Struct]);
    assert_eq!(value_list_to_strings(&list), vec!["a".to_string(), "3".to_string()]);
    assert_eq!(value_list_to_strings(&text("only")), vec!["only".to_string()]);
    assert!(value_list_to_strings(&integer(1)).is_empty());
}

#[test]
fn filters_all_given_conditions() {
    assert!(build_filter(None).is_none());
    let none = SearchFilters { subject_id: None, grade_id: None, ptype_id: None, knowledge_point: None };
    assert!(build_filter(Some(&none)).is_none());
    let f = SearchFilters {
        subject_id: Some(10001),
        grade_id: Some(1),
        ptype_id: None,
        knowledge_point: Some("减法".to_string()),
    };
    let flt = build_filter(Some(&f)).unwrap();
    assert_eq!(flt.must.len(), 3);
    assert_eq!(flt.must[0].key, "subject_id");
    assert!(matches!(flt.must[0].match_value, MatchValue::Integer(10001)));
    assert_eq!(flt.must[1].key, "grade_id");
    assert_eq!(flt.must[2].key, "knowledge_points");
    assert!(matches!(&flt.must[2].match_value, MatchValue::Text(t) if t == "减法"));
    let c = condition_eq("grade_id", -1);
    assert_eq!(c.key, "grade_id");
    assert!(matches!(c.match_value, MatchValue::Integer(-1)));
}

#[test]
fn id_filter_casts_to_i64() {
    let f = SearchFilters { subject_id: Some(u64::MAX), grade_id: None, ptype_id: None, knowledge_point: None };
    let flt = build_filter(Some(&f)).unwrap();
    assert!(matches!(flt.must[0].match_value, MatchValue::Integer(-1)));
}

#[test]
fn fused_query_per_picture() {
    let w = [0.6f32.to_bits(), 0.25f32.to_bits(), 0.15f32.to_bits()];
    let p = search_plan(false, 5, 0, w, None);
    assert_eq!(p.prefetch.len(), 3);
    let names: Vec<&str> = p.prefetch.iter().map(|x| x.using.as_str()).collect();
    assert_eq!(names, vec!["stem", "analysis", "knowledge"]);
    assert!(p.prefetch.iter().all(|x| x.limit == 25 && x.filter.is_none()));
    let weights: Vec<f32> = p.prefetch.iter().map(|x| f32::from_bits(x.weight_bits)).collect();
    assert_eq!(weights, vec![0.6, 0.25, 0.15]);
    assert_eq!(p.limit, 5);
    assert!(p.filter.is_none());
    let f = SearchFilters { subject_id: None, grade_id: Some(1), ptype_id: None, knowledge_point: None };
    let p = search_plan(true, 10, 7, [1, 2, 3], Some(&f));
    assert_eq!(p.prefetch.len(), 4);
    assert_eq!(p.prefetch[3].using, "image");
    assert_eq!(p.prefetch[3].limit, 30);
    assert_eq!(p.prefetch[3].score_threshold_bits, 7);
    assert_eq!(f32::from_bits(p.prefetch[3].weight_bits), 1.0);
    assert_eq!(f32::from_bits(IMAGE_FUSION_WEIGHT_BITS), 1.0);
    let weights: Vec<u32> = p.prefetch.iter().take(3).map(|x| x.weight_bits).collect();
    assert_eq!(weights, vec![1, 2, 3]);
    assert_eq!(p.filter.unwrap().must.len(), 1);
    assert!(p.prefetch.iter().all(|x| x.filter.as_ref().map(|flt| flt.must.len()) == Some(1)));
    assert!(matches!(p.prefetch[3].filter.as_ref().unwrap().must[0].match_value, MatchValue::Integer(1)));
    assert_eq!(p.prefetch[3].filter.as_ref().unwrap().must[0].key, "grade_id");
    let one = prefetch_for("stem", 3, 9, 4, None);
    assert_eq!(one.using, "stem");
    assert!(one.filter.is_none());
    assert!(one.limit == 3 && one.score_threshold_bits == 9 && one.weight_bits == 4);
}

#[test]
fn different_weights_give_different_plans() {
    let a = search_plan(false, 5, 0, [0.6f32.to_bits(), 0.25f32.to_bits(), 0.15f32.to_bits()], None);
    let b = search_plan(false, 5, 0, [0.2f32.to_bits(), 0.5f32.to_bits(), 0.3f32.to_bits()], None);
    let wa: Vec<u32> = a.prefetch.iter().map(|x| x.weight_bits).collect();
    let wb: Vec<u32> = b.prefetch.iter().map(|x| x.weight_bits).collect();
    assert_ne!(wa, wb);
}

#[test]
fn hits_become_results() {
    let hit = ScoredPoint {
        id: Some(PointId::Num(2)),
        payload: vec![
            ("stem".to_string(), text("<p>看图列式计算</p><p>□ - □ = □</p>")),
            ("subject_id".to_string(), integer(10001)),
            ("grade_id".to_string(), integer(1)),
            ("difficult".to_string(), StoredValue::Double { as_u64: 0, as_f32_bits: 0.25f32.to_bits(), text: "0.25".to_string() }),
            ("ptype_id".to_string(), integer(1)),
            ("knowledge_points".to_string(), StoredValue::List(vec![text("看图列式"), text("减法")])),
        ],
        score_bits: 1.7f32.to_bits(),
    };
    let uuid = ScoredPoint { id: Some(PointId::Uuid("x".to_string())), payload: vec![], score_bits: 0 };
    let bare = ScoredPoint { id: Some(PointId::Num(9)), payload: vec![], score_bits: 0 };
    let no_id = ScoredPoint { id: None, payload: vec![], score_bits: 0 };
    let results = build_results(vec![uuid, hit, no_id, bare]);
    assert_eq!(results.len(), 2);
    let r = &results[0];
    assert_eq!(r.question_id, 2);
    assert_eq!(r.stem, "<p>看图列式计算</p><p>□ - □ = □</p>");
    assert_eq!(r.score_bits, 1.7f32.to_bits());
    assert_eq!(r.subject_id, Some(10001));
    assert_eq!(r.grade_id, Some(1));
    assert_eq!(r.ptype_id, Some(1));
    assert_eq!(r.difficult_bits, Some(0.25f32.to_bits()));
    assert_eq!(r.knowledge_points, vec!["看图列式".to_string(), "减法".to_string()]);
    let b = &results[1];
    assert_eq!(b.question_id, 9);
    assert_eq!(b.stem, "");
    assert!(b.knowledge_points.is_empty());
    assert_eq!(b.subject_id, None);
    assert_eq!(b.difficult_bits, None);
}

#[test]
fn written_payload_reads_back() {
    // What the store gives back for the payload written for a question.
    let q = sample_question();
    let stored: Vec<(String, StoredValue)> = point_payload(&q)
        .into_iter()
        .map(|(k, v)| {
            let s = match v {
                PointValue::Null => StoredValue::Null,
                PointValue::Integer(i) => integer(i),
                PointValue::Text(t) => StoredValue::Text(t),
                PointValue::List(items) => StoredValue::List(
                    items
                        .into_iter()
                        .map(|x| match x {
                            PointValue::Text(t) => StoredValue::Text(t),
                            _ => StoredValue::Null,
                        })
                        .collect(),
                ),
                PointValue::Double(_) => StoredValue::Double { as_u64: 0, as_f32_bits: 0.3f32.to_bits(), text: "0.3".to_string() },
                PointValue::Bool(b) => StoredValue::Bool(b),
            };
            (k, s)
        })
        .collect();
    let results = build_results(vec![ScoredPoint { id: Some(PointId::Num(q.id)), payload: stored, score_bits: 0 }]);
    let r = &results[0];
    assert_eq!(r.question_id, q.id);
    assert_eq!(r.stem, q.stem);
    assert_eq!(r.subject_id, q.subject_id);
    assert_eq!(r.grade_id, q.grade_id);
    assert_eq!(r.ptype_id, q.ptype_id);
    assert_eq!(r.knowledge_points, q.knowledge_points);
}

#[test]
fn collection_setup_steps() {
    let absent = ensure_collection_step(&SetupEvent::Listed(vec!["other".to_string()]), 512, 768);
    match absent {
        SetupAction::Create(specs) => {
            let got: Vec<(&str, u64)> = specs.iter().map(|s| (s.name.as_str(), s.size)).collect();
            assert_eq!(got, vec![("stem", 512), ("analysis", 512), ("knowledge", 512), ("image", 768)]);
        }
        other => panic!("expected create, got {:?}", other),
    }
    let present = ensure_collection_step(&SetupEvent::Listed(vec!["question".to_string()]), 512, 768);
    assert!(matches!(present, SetupAction::Describe));
    let good = SetupEvent::Described(Some(VectorsShape::Named(vec![
        vector("image", 768, true),
        vector("stem", 512, true),
        vector("analysis", 512, true),
        vector("knowledge", 512, true),
    ])));
    assert!(matches!(ensure_collection_step(&good, 512, 768), SetupAction::Ready));
    let old = SetupEvent::Described(Some(VectorsShape::Named(vec![vector("stem", 512, true)])));
    assert!(matches!(ensure_collection_step(&old, 512, 768), SetupAction::Delete));
    let image_only = SetupEvent::Described(Some(VectorsShape::Named(vec![vector("image", 768, true)])));
    assert!(matches!(ensure_collection_step(&image_only, 512, 768), SetupAction::Delete));
    let wrong_size = SetupEvent::Described(Some(VectorsShape::Named(vec![
        vector("stem", 512, true),
        vector("analysis", 512, true),
        vector("knowledge", 512, true),
        vector("image", 512, true),
    ])));
    assert!(matches!(ensure_collection_step(&wrong_size, 512, 768), SetupAction::Delete));
    let not_cosine = SetupEvent::Described(Some(VectorsShape::Named(vec![
        vector("stem", 512, false),
        vector("analysis", 512, true),
        vector("knowledge", 512, true),
        vector("image", 768, true),
    ])));
    assert!(matches!(ensure_collection_step(&not_cosine, 512, 768), SetupAction::Delete));
    let extra = SetupEvent::Described(Some(VectorsShape::Named(vec![
        vector("stem", 512, true),
        vector("analysis", 512, true),
        vector("knowledge", 512, true),
        vector("image", 768, true),
        vector("title", 512, true),
    ])));
    assert!(matches!(ensure_collection_step(&extra, 512, 768), SetupAction::Delete));
    assert!(matches!(ensure_collection_step(&SetupEvent::Described(Some(VectorsShape::Single)), 512, 768), SetupAction::Delete));
    assert!(matches!(ensure_collection_step(&SetupEvent::Described(None), 512, 768), SetupAction::Delete));
    assert!(matches!(ensure_collection_step(&SetupEvent::Deleted, 512, 768), SetupAction::Create(_)));
    assert!(matches!(ensure_collection_step(&SetupEvent::Created, 512, 768), SetupAction::Ready));
}

fn vector(name: &str, size: u64, cosine: bool) -> ExistingVector {
    ExistingVector { name: name.to_string(), size, cosine }
}
