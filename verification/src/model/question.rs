//! Questions to index, and the checks that an upsert or a delete request
//! must pass before any vector is computed.
use vstd::prelude::*;

use crate::text::{decimal, is_blank_str, trimmed, u64_to_decimal};

verus! {

/// An upsert request: every question is inserted, or replaced when its id
/// is already indexed.
#[derive(Debug, Clone)]
pub struct UpsertRequest {
    pub questions: Vec<QuestionInput>,
}

/// One question to index.
#[derive(Debug, Clone)]
pub struct QuestionInput {
    pub id: u64,
    pub ptype_id: Option<u64>,
    pub parent_id: Option<u64>,
    /// The stem, as HTML.
    pub stem: String,
    /// The worked analysis, as HTML.
    pub analysis: String,
    pub subject_id: Option<u64>,
    pub grade_id: Option<u64>,
    /// The difficulty, an `f32` carried as its IEEE-754 bit pattern.
    pub difficult_bits: Option<u32>,
    pub knowledge_points: Vec<String>,
    /// The picture whose image vector is indexed, if any.
    pub image_url: Option<String>,
}

/// The answer to an upsert.
#[derive(Debug, Clone)]
pub struct UpsertResponse {
    pub synced_count: usize,
    pub status: String,
}

/// The answer to a delete.
#[derive(Debug, Clone)]
pub struct DeleteResponse {
    pub deleted_count: usize,
    pub status: String,
}

/// A delete request.
#[derive(Debug, Clone)]
pub struct DeleteRequest {
    pub ids: Vec<u64>,
}

/// Why a question is refused, or `None` when it is accepted: its id must not
/// be 0, and neither its stem nor its analysis may be blank.
pub open spec fn question_error(q: QuestionInput) -> Option<Seq<char>> {
    if q.id == 0 {
        Some("题目 id 不能为 0"@)
    } else if trimmed(q.stem@).len() == 0 {
        Some("题目["@ + decimal(q.id as nat) + "] stem 不能为空"@)
    } else if trimmed(q.analysis@).len() == 0 {
        Some("题目["@ + decimal(q.id as nat) + "] analysis 不能为空"@)
    } else {
        None
    }
}

/// The error of the first refused question at or after index `i`.
pub open spec fn first_question_error(qs: Seq<QuestionInput>, i: int) -> Option<Seq<char>>
    decreases qs.len() - i,
{
    if i < 0 || i >= qs.len() {
        None
    } else if question_error(qs[i]) is Some {
        question_error(qs[i])
    } else {
        first_question_error(qs, i + 1)
    }
}

/// Why an upsert request is refused, or `None` when it is accepted: it must
/// hold at least one question, and every question must be accepted; the
/// first refused question gives the message.
pub open spec fn upsert_error(qs: Seq<QuestionInput>) -> Option<Seq<char>> {
    if qs.len() == 0 {
        Some("questions 不能为空"@)
    } else {
        first_question_error(qs, 0)
    }
}

/// Why a delete request is refused, or `None` when it is accepted.
pub open spec fn delete_error(ids: Seq<u64>) -> Option<Seq<char>> {
    if ids.len() == 0 {
        Some("ids 不能为空"@)
    } else {
        None
    }
}

impl QuestionInput {
    /// Accepts the question, or says why it is refused.
    pub fn validate(&self) -> (r: Result<(), String>)
        ensures
            r is Ok <==> question_error(*self) is None,
            r matches Err(m) ==> question_error(*self) == Some(m@),
    {
        if self.id == 0 {
            return Err(String::from_str("题目 id 不能为 0"));
        }
        if is_blank_str(self.stem.as_str()) {
            let m = String::from_str("题目[");
            let id = u64_to_decimal(self.id);
            let m = m.concat(id.as_str());
            return Err(m.concat("] stem 不能为空"));
        }
        if is_blank_str(self.analysis.as_str()) {
            let m = String::from_str("题目[");
            let id = u64_to_decimal(self.id);
            let m = m.concat(id.as_str());
            return Err(m.concat("] analysis 不能为空"));
        }
        Ok(())
    }
}

impl UpsertRequest {
    /// Accepts the request, or says why it is refused: an empty list first,
    /// then the first refused question.
    pub fn validate(&self) -> (r: Result<(), String>)
        ensures
            r is Ok <==> upsert_error(self.questions@) is None,
            r matches Err(m) ==> upsert_error(self.questions@) == Some(m@),
    {
        if self.questions.len() == 0 {
            return Err(String::from_str("questions 不能为空"));
        }
        let mut i: usize = 0;
        while i < self.questions.len()
            invariant
                i <= self.questions.len(),
                first_question_error(self.questions@, 0) == first_question_error(
                    self.questions@,
                    i as int,
                ),
            decreases self.questions.len() - i,
        {
            match self.questions[i].validate() {
                Ok(()) => {},
                Err(m) => {
                    return Err(m);
                },
            }
            i = i + 1;
        }
        Ok(())
    }
}

impl DeleteRequest {
    /// Accepts the request when it names at least one id.
    pub fn validate(&self) -> (r: Result<(), String>)
        ensures
            r is Ok <==> delete_error(self.ids@) is None,
            r matches Err(m) ==> delete_error(self.ids@) == Some(m@),
    {
        if self.ids.len() == 0 {
            return Err(String::from_str("ids 不能为空"));
        }
        Ok(())
    }
}

/// The answer to an accepted upsert of `count` questions.
pub fn upsert_response(count: usize) -> (r: UpsertResponse)
    ensures
        r.synced_count == count,
        r.status@ == "ok"@,
{
    UpsertResponse { synced_count: count, status: String::from_str("ok") }
}

/// The answer to an accepted delete of `count` ids.
pub fn delete_response(count: usize) -> (r: DeleteResponse)
    ensures
        r.deleted_count == count,
        r.status@ == "ok"@,
{
    DeleteResponse { deleted_count: count, status: String::from_str("ok") }
}

} // verus!
