use qdrant_vector::handler::sync::{
    check_search_request, decode_query_image, effective_weights, knowledge_text, prepare_upsert,
    strip_data_url_prefix,
};
use qdrant_vector::model::question::{
    delete_response, upsert_response, DeleteRequest, QuestionInput, UpsertRequest,
};
use qdrant_vector::model::search::{default_top_k, search_response, SearchRequest};

fn question(id: u64, stem: &str, analysis: &str) -> QuestionInput {
    QuestionInput {
        id,
        ptype_id: None,
        parent_id: None,
        stem: stem.to_string(),
        analysis: analysis.to_string(),
        subject_id: None,
        grade_id: None,
        difficult_bits: None,
        knowledge_points: vec![],
        image_url: None,
    }
}

fn search(text: Option<&str>, image: Option<&str>, top_k: u64) -> SearchRequest {
    SearchRequest {
        query_text: text.map(|s| s.to_string()),
        query_image: image.map(|s| s.to_string()),
        top_k,
        score_threshold_bits: 0,
        weights_bits: None,
        filters: None,
    }
}

#[test]
fn question_zero_id_is_refused() {
    assert_eq!(question(0, "a", "b").validate(), Err("题目 id 不能为 0".to_string()));
}

#[test]
fn question_blank_stem_is_refused_with_its_id() {
    assert_eq!(question(7, " \t\u{3000}", "b").validate(), Err("题目[7] stem 不能为空".to_string()));
    assert_eq!(question(12345, "", "b").validate(), Err("题目[12345] stem 不能为空".to_string()));
}

#[test]
fn question_blank_analysis_is_refused_with_its_id() {
    assert_eq!(question(42, "a", "\n ").validate(), Err("题目[42] analysis 不能为空".to_string()));
}

#[test]
fn question_with_text_is_accepted() {
    assert_eq!(question(1, " a ", "b").validate(), Ok(()));
}

#[test]
fn upsert_empty_is_refused() {
    let req = UpsertRequest { questions: vec![] };
    assert_eq!(req.validate(), Err("questions 不能为空".to_string()));
}

#[test]
fn upsert_first_refused_question_gives_the_message() {
    let req = UpsertRequest {
        questions: vec![question(1, "a", "b"), question(2, "a", " "), question(0, "a", "b")],
    };
    assert_eq!(req.validate(), Err("题目[2] analysis 不能为空".to_string()));
}

#[test]
fn delete_empty_is_refused() {
    assert_eq!(DeleteRequest { ids: vec![] }.validate(), Err("ids 不能为空".to_string()));
    assert_eq!(DeleteRequest { ids: vec![1, 2, 3] }.validate(), Ok(()));
}

#[test]
fn responses_carry_counts() {
    let r = upsert_response(2);
    assert_eq!(r.synced_count, 2);
    assert_eq!(r.status, "ok");
    let s = search_response(vec![]);
    assert_eq!(s.total, 0);
    assert_eq!(s.status, "ok");
    let d = delete_response(3);
    assert_eq!(d.deleted_count, 3);
    assert_eq!(d.status, "ok");
}

#[test]
fn top_k_defaults_to_ten() {
    assert_eq!(default_top_k(), 10);
}

#[test]
fn search_needs_text_or_picture() {
    let msg = "query_text 或 query_image 至少需要一个".to_string();
    assert_eq!(check_search_request(&search(None, None, 10)).err(), Some(msg.clone()));
    assert_eq!(check_search_request(&search(Some(""), Some(""), 10)).err(), Some(msg));
}

#[test]
fn search_top_k_must_be_in_range() {
    let msg = "top_k 必须在 1-100 之间".to_string();
    assert_eq!(check_search_request(&search(Some("看图列式"), None, 0)).err(), Some(msg.clone()));
    assert_eq!(check_search_request(&search(Some("看图列式"), None, 101)).err(), Some(msg));
    assert!(check_search_request(&search(Some("看图列式"), None, 100)).is_ok());
    assert!(check_search_request(&search(Some("看图列式"), None, 1)).is_ok());
}

#[test]
fn search_kind_says_what_is_given() {
    let k = check_search_request(&search(Some("苹果"), None, 5)).unwrap();
    assert!(k.has_text && !k.has_image);
    let k = check_search_request(&search(None, Some("aGVsbG8="), 5)).unwrap();
    assert!(!k.has_text && k.has_image);
    let k = check_search_request(&search(Some("苹果"), Some("aGVsbG8="), 5)).unwrap();
    assert!(k.has_text && k.has_image);
}

#[test]
fn data_url_prefix_is_removed() {
    assert_eq!(strip_data_url_prefix("data:image/png;base64,iVBORw0KGgo"), "iVBORw0KGgo");
    assert_eq!(strip_data_url_prefix("iVBORw0KGgo"), "iVBORw0KGgo");
    assert_eq!(strip_data_url_prefix("a;base64,b;base64,c"), "b;base64,c");
}

#[test]
fn picture_decodes_with_or_without_prefix() {
    assert_eq!(decode_query_image("aGVsbG8=").unwrap(), b"hello".to_vec());
    assert_eq!(decode_query_image("data:image/png;base64,aGVsbG8=").unwrap(), b"hello".to_vec());
    assert_eq!(decode_query_image("").unwrap(), Vec::<u8>::new());
}

#[test]
fn bad_picture_is_refused() {
    let err = decode_query_image("aGVsbG8").unwrap_err();
    assert!(err.starts_with("base64 解码失败: "));
    assert!(err.len() > "base64 解码失败: ".len());
    assert!(decode_query_image("data:image/png;base64,@@@@").is_err());
    let plain = decode_query_image("aGVsbG8").unwrap_err();
    let behind_url = decode_query_image("data:image/png;base64,aGVsbG8").unwrap_err();
    assert_eq!(plain, behind_url);
    assert_eq!(plain, "base64 解码失败: Invalid padding");
    assert_eq!(decode_query_image("@@@@").unwrap_err(), decode_query_image("data:image/jpeg;base64,@@@@").unwrap_err());
}

#[test]
fn weights_default_or_given() {
    let d = effective_weights(&None);
    assert_eq!(d, [0.6f32.to_bits(), 0.25f32.to_bits(), 0.15f32.to_bits()]);
    let g = effective_weights(&Some(vec![1.0f32.to_bits(), 2.0f32.to_bits(), 3.0f32.to_bits(), 4]));
    assert_eq!(g, [1.0f32.to_bits(), 2.0f32.to_bits(), 3.0f32.to_bits()]);
}

#[test]
fn knowledge_points_are_joined() {
    assert_eq!(knowledge_text(&vec![]), "");
    assert_eq!(knowledge_text(&vec!["减法".to_string()]), "减法");
    assert_eq!(
        knowledge_text(&vec!["减法".to_string(), "20以内减法".to_string()]),
        "减法；20以内减法"
    );
}

#[test]
fn upsert_texts_per_question() {
    let mut q1 = question(1, "<p>树上原来有<span>18</span>只小鸟</p>", "18 - 7 = 11（只）");
    q1.knowledge_points = vec!["减法".to_string(), "20以内减法".to_string()];
    q1.image_url = Some("http://oss.example.com/quest/xxx.png".to_string());
    let mut q2 = question(2, "题干", "解析");
    q2.image_url = Some(String::new());
    let t = prepare_upsert(&UpsertRequest { questions: vec![q1, q2] }).unwrap();
    assert_eq!(t.stems, vec!["树上原来有18只小鸟".to_string(), "题干".to_string()]);
    assert_eq!(t.analyses, vec!["18 - 7 = 11（只）".to_string(), "解析".to_string()]);
    assert_eq!(t.knowledges, vec!["减法；20以内减法".to_string(), String::new()]);
    assert_eq!(t.image_urls, vec![Some("http://oss.example.com/quest/xxx.png".to_string()), None]);
}

#[test]
fn upsert_texts_refused_like_validate() {
    let r = prepare_upsert(&UpsertRequest { questions: vec![question(0, "a", "b")] });
    assert_eq!(r.err(), Some("题目 id 不能为 0".to_string()));
}
