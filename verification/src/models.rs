//! The entities of the service and the bodies of its requests and replies.
//!
//! Identifiers are `Id` values throughout; timestamps are seconds since the
//! Unix epoch.

use crate::id::Id;
use vstd::prelude::*;

verus! {

/// A quiz with its questions, in order, and the names of its tags.
#[derive(Debug, Clone, PartialEq, Eq)]
pub struct Quiz {
    pub id: Id,
    pub title: String,
    pub category_id: Option<Id>,
    pub questions: Vec<Question>,
    pub tags: Vec<String>,
}

/// A question with its options, in order.
#[derive(Debug, Clone, PartialEq, Eq)]
pub struct Question {
    pub id: Id,
    pub text: String,
    pub options: Vec<QuestionOption>,
    pub explanation: Option<String>,
}

/// One choice of a question. `is_correct` is for grading only.
#[derive(Debug, Clone, PartialEq, Eq)]
pub struct QuestionOption {
    pub id: Id,
    pub text: String,
    pub is_correct: bool,
    pub description: Option<String>,
}

/// The mathematical content of a `QuestionOption`.
pub struct OptionView {
    pub id: u64,
    pub text: Seq<char>,
    pub is_correct: bool,
    pub description: Option<Seq<char>>,
}

/// The mathematical content of a `Question`.
pub struct QuestionView {
    pub id: u64,
    pub text: Seq<char>,
    pub options: Seq<OptionView>,
    pub explanation: Option<Seq<char>>,
}

/// The mathematical content of a `Quiz`.
pub struct QuizView {
    pub id: u64,
    pub title: Seq<char>,
    pub category_id: Option<u64>,
    pub questions: Seq<QuestionView>,
    pub tags: Seq<Seq<char>>,
}

/// The number of an optional identifier.
pub open spec fn number_of(id: Option<Id>) -> Option<u64> {
    match id {
        Some(i) => Some(i.number()),
        None => None,
    }
}

impl View for QuestionOption {
    type V = OptionView;

    open spec fn view(&self) -> OptionView {
        OptionView {
            id: self.id.number(),
            text: self.text@,
            is_correct: self.is_correct,
            description: text_of(self.description),
        }
    }
}

/// The contents of a list of options.
pub open spec fn options_of(v: Seq<QuestionOption>) -> Seq<OptionView> {
    v.map_values(|o: QuestionOption| o@)
}

impl View for Question {
    type V = QuestionView;

    open spec fn view(&self) -> QuestionView {
        QuestionView {
            id: self.id.number(),
            text: self.text@,
            options: options_of(self.options@),
            explanation: text_of(self.explanation),
        }
    }
}

/// The contents of a list of questions.
pub open spec fn questions_of(v: Seq<Question>) -> Seq<QuestionView> {
    v.map_values(|q: Question| q@)
}

impl View for Quiz {
    type V = QuizView;

    open spec fn view(&self) -> QuizView {
        QuizView {
            id: self.id.number(),
            title: self.title@,
            category_id: number_of(self.category_id),
            questions: questions_of(self.questions@),
            tags: texts_of(self.tags@),
        }
    }
}

#[derive(Debug, Clone, PartialEq, Eq)]
pub struct CreateQuizRequest {
    pub title: String,
    pub category_id: Option<Id>,
    pub questions: Vec<CreateQuestionRequest>,
    pub tags: Option<Vec<String>>,
}

/// A partial update: a field that is `None` is left as it is.
#[derive(Debug, Clone, PartialEq, Eq)]
pub struct UpdateQuizRequest {
    pub title: Option<String>,
    pub category_id: Option<Id>,
    pub tags: Option<Vec<String>>,
}

#[derive(Debug, Clone, PartialEq, Eq)]
pub struct CreateQuestionRequest {
    pub text: String,
    pub options: Vec<CreateOptionRequest>,
    pub explanation: Option<String>,
}

#[derive(Debug, Clone, PartialEq, Eq)]
pub struct CreateOptionRequest {
    pub text: String,
    pub is_correct: bool,
    pub description: Option<String>,
}

#[derive(Debug, Clone, PartialEq, Eq)]
pub struct SubmitAnswerRequest {
    pub question_id: Id,
    pub option_id: Id,
    pub user_email: Option<String>,
}

#[derive(Debug, Clone, PartialEq, Eq)]
pub struct AnswerResponse {
    pub correct: bool,
    pub message: String,
    pub explanation: Option<String>,
}

#[derive(Debug, Clone, PartialEq, Eq)]
pub struct Developer {
    pub id: Id,
    pub username: String,
    pub password_hash: String,
}

#[derive(Debug, Clone, PartialEq, Eq)]
pub struct RegisterRequest {
    pub username: String,
    pub password: String,
}

#[derive(Debug, Clone, PartialEq, Eq)]
pub struct LoginRequest {
    pub username: String,
    pub password: String,
}

#[derive(Debug, Clone, PartialEq, Eq)]
pub struct TokenResponse {
    pub token: String,
}

/// What a bearer token states: the developer's name and number, and the
/// second at which the token expires.
#[derive(Debug, Clone, PartialEq, Eq)]
pub struct Claims {
    pub sub: String,
    pub exp: usize,
    pub developer_id: i64,
}

/// The mathematical content of a `Claims` value.
pub struct ClaimsView {
    pub sub: Seq<char>,
    pub exp: usize,
    pub developer_id: i64,
}

impl View for Claims {
    type V = ClaimsView;

    open spec fn view(&self) -> ClaimsView {
        ClaimsView { sub: self.sub@, exp: self.exp, developer_id: self.developer_id }
    }
}

#[derive(Debug, Clone, PartialEq, Eq)]
pub struct Category {
    pub id: Id,
    pub name: String,
}

#[derive(Debug, Clone, PartialEq, Eq)]
pub struct CreateCategoryRequest {
    pub name: String,
}

#[derive(Debug, Clone, PartialEq, Eq)]
pub struct Tag {
    pub id: Id,
    pub name: String,
}

#[derive(Debug, Clone, PartialEq, Eq)]
pub struct ApiKey {
    pub id: Id,
    pub developer_id: Id,
    pub key_hash: String,
    pub created_at: i64,
}

#[derive(Debug, Clone, PartialEq, Eq)]
pub struct UsageLog {
    pub id: Id,
    pub api_key_id: Id,
    pub endpoint: String,
    pub status_code: i32,
    pub created_at: i64,
}

#[derive(Debug, Clone, Copy, PartialEq, Eq)]
pub struct PaginationParams {
    pub page: Option<u32>,
    pub per_page: Option<u32>,
}

#[derive(Debug, Clone, PartialEq, Eq)]
pub struct DeveloperResponse {
    pub id: Id,
    pub username: String,
}

#[derive(Debug, Clone, PartialEq, Eq)]
pub struct ErrorResponse {
    pub error: String,
}

#[derive(Debug, Clone, PartialEq, Eq)]
pub struct EndUser {
    pub id: Id,
    pub email: String,
}

#[derive(Debug, Clone, PartialEq, Eq)]
pub struct CreateEndUserRequest {
    pub email: String,
}

/// One recorded attempt of an end user.
#[derive(Debug, Clone, Copy, PartialEq, Eq)]
pub struct UserAnswerHistory {
    pub quiz_id: Id,
    pub question_id: Id,
    pub option_id: Id,
    pub is_correct: bool,
    pub created_at: i64,
}

/// The content of an optional text.
pub open spec fn text_of(t: Option<String>) -> Option<Seq<char>> {
    match t {
        Some(s) => Some(s@),
        None => None,
    }
}

/// The contents of a list of texts.
pub open spec fn texts_of(v: Seq<String>) -> Seq<Seq<char>> {
    v.map_values(|s: String| s@)
}

/// A copy of an optional text.
pub fn copy_text(t: &Option<String>) -> (r: Option<String>)
    ensures
        text_of(r) == text_of(*t),
{
    match t {
        Some(s) => Some(s.clone()),
        None => None,
    }
}

} // verus!
