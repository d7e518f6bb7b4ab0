//! The decisions of each endpoint.
//!
//! An endpoint that writes returns the statements to run in one transaction;
//! one that reads takes what the store returned and gives the reply. A
//! failure carries the status and the text the client is shown, never a
//! detail of the store.

use crate::auth::{
    self, password_verifies, sha256_hex, ApiKeyMiddleware,
};
use crate::error::{ApiError, ErrorKind, StoreFailure};
use crate::id::Id;
use crate::models::{
    copy_text, number_of, options_of, questions_of, text_of, texts_of, AnswerResponse,
    Category, CreateCategoryRequest, CreateEndUserRequest, CreateQuizRequest, Developer,
    DeveloperResponse, EndUser, LoginRequest, OptionView, PaginationParams, Question,
    QuestionOption, QuestionView, Quiz, QuizView, RegisterRequest, SubmitAnswerRequest,
    TokenResponse, UpdateQuizRequest, UserAnswerHistory,
};
use crate::listing::{listed_ids, page_window, parse_id_list, window_of, PageWindow};
use crate::plan::{
    creation_statements, names_of, plan_questions, plan_tags, quiz_from, update_statements,
    QuizPlan, UpdatePlan,
};
use crate::store::{
    distinct, distinct_names, numbers_of, plan_of, OptionRow, QuestionRow, QuizRow, Statement,
    StatementView,
};
use vstd::prelude::*;

verus! {

/// The reply of the health endpoint.
pub fn health_check() -> (body: &'static str)
    ensures
        body@ == "OK"@,
{
    "OK"
}

/// Plans the creation of a quiz. Every entity gets a fresh identifier; each
/// tag name is kept once. The quiz returned is what the plan stores.
pub fn create_quiz(req: &CreateQuizRequest) -> (plan: QuizPlan)
    ensures
        quiz_from(plan.quiz@, *req),
        plan.tag_ids@.len() == plan.quiz.tags@.len(),
        plan_of(plan.statements@) == creation_statements(plan.quiz@, numbers_of(plan.tag_ids@)),
{
    let id = Id::new();
    let mut statements: Vec<Statement> = Vec::new();
    let insert = Statement::InsertQuiz {
        id,
        title: req.title.clone(),
        category_id: req.category_id,
    };
    statements.push(insert);
    assert(plan_of(statements@) =~= seq![insert@]);
    let questions = plan_questions(id, &req.questions, &mut statements);
    let tags = match &req.tags {
        Some(names) => distinct_names(names),
        None => Vec::new(),
    };
    proof {
        assert(texts_of(Seq::<String>::empty()) =~= Seq::<Seq<char>>::empty());
        assert(distinct(Seq::<Seq<char>>::empty()) =~= Seq::<Seq<char>>::empty());
    }
    let tag_ids = plan_tags(id, &tags, &mut statements);
    let quiz = Quiz { id, title: req.title.clone(), category_id: req.category_id, questions, tags };
    assert(texts_of(quiz.tags@).len() == quiz.tags@.len());
    QuizPlan { quiz, tag_ids, statements }
}

/// Plans a partial update of the quiz `id`: only the fields given are
/// written, and tags that are given replace the quiz's tags.
pub fn update_quiz(id: Id, req: &UpdateQuizRequest) -> (plan: UpdatePlan)
    ensures
        plan_of(plan.statements@) == update_statements(
            id.number(),
            text_of(req.title),
            number_of(req.category_id),
            names_of(req.tags),
            numbers_of(plan.tag_ids@),
        ),
        match req.tags {
            Some(names) => plan.tag_ids@.len() == distinct(texts_of(names@)).len(),
            None => plan.tag_ids@.len() == 0,
        },
{
    let mut statements: Vec<Statement> = Vec::new();
    let ghost empty = Seq::<StatementView>::empty();
    assert(plan_of(statements@) =~= empty);
    if let Some(title) = &req.title {
        let s = Statement::SetTitle { quiz_id: id, title: title.clone() };
        statements.push(s);
        assert(plan_of(statements@) =~= seq![s@]);
    }
    let ghost after_title = plan_of(statements@);
    if let Some(category_id) = req.category_id {
        let s = Statement::SetCategory { quiz_id: id, category_id };
        statements.push(s);
        assert(plan_of(statements@) =~= after_title + seq![s@]);
    } else {
        assert(plan_of(statements@) =~= after_title + empty);
    }
    let ghost after_category = plan_of(statements@);
    let tag_ids = match &req.tags {
        Some(names) => {
            let s = Statement::ClearTags { quiz_id: id };
            statements.push(s);
            assert(plan_of(statements@) =~= after_category + seq![s@]);
            let kept = distinct_names(names);
            let ids = plan_tags(id, &kept, &mut statements);
            assert(plan_of(statements@) =~= after_category + (seq![s@] + crate::plan::tag_statements(
                id.number(),
                distinct(texts_of(names@)),
                numbers_of(ids@),
            )));
            assert(texts_of(kept@).len() == kept@.len());
            ids
        },
        None => {
            assert(plan_of(statements@) =~= after_category + empty);
            let ids: Vec<Id> = Vec::new();
            assert(numbers_of(ids@) =~= Seq::<u64>::empty());
            ids
        },
    };
    UpdatePlan { tag_ids, statements }
}

/// The statement that removes the quiz `id` with all that belongs to it.
pub fn delete_quiz(id: Id) -> (statement: Statement)
    ensures
        statement@ == (StatementView::DeleteQuiz { id: id.number() }),
{
    Statement::DeleteQuiz { id }
}

/// A failure as a contract states it: its class and its text.
pub type Refusal = (ErrorKind, Seq<char>);

/// What a removal replies, given how many rows it removed.
pub open spec fn delete_reply(removed: Result<u64, StoreFailure>) -> Result<(), Refusal> {
    match removed {
        Ok(n) => if n == 0 {
            Err((ErrorKind::NotFound, "Quiz not found"@))
        } else {
            Ok(())
        },
        Err(_) => Err((ErrorKind::Store, "Database error"@)),
    }
}

/// The reply to a removal, given how many rows it removed: success if there
/// was one, `NotFound` if there was none.
pub fn delete_outcome(removed: Result<u64, StoreFailure>) -> (r: Result<(), ApiError>)
    ensures
        match delete_reply(removed) {
            Ok(_) => r is Ok,
            Err(f) => r matches Err(e) && e.is(f.0, f.1),
        },
{
    match removed {
        Ok(n) => if n == 0 {
            Err(ApiError::new(ErrorKind::NotFound, "Quiz not found"))
        } else {
            Ok(())
        },
        Err(_) => Err(ApiError::new(ErrorKind::Store, "Database error")),
    }
}

/// The reply to an update's check that the quiz exists, made before anything
/// is written.
pub fn update_precondition(found: Result<bool, StoreFailure>) -> (r: Result<(), ApiError>)
    ensures
        match found {
            Ok(present) => if present {
                r is Ok
            } else {
                r matches Err(e) && e.is(ErrorKind::NotFound, "Quiz not found"@)
            },
            Err(_) => r matches Err(e) && e.is(ErrorKind::Store, "Database error checking quiz"@),
        },
{
    match found {
        Ok(present) => if present {
            Ok(())
        } else {
            Err(ApiError::new(ErrorKind::NotFound, "Quiz not found"))
        },
        Err(_) => Err(ApiError::new(ErrorKind::Store, "Database error checking quiz")),
    }
}

/// The filter of a listing, as the request gives it.
#[derive(Debug, Clone, PartialEq, Eq)]
pub struct ListQuizzesFilter {
    pub category_id: Option<Id>,
    /// Identifiers to leave out, separated by commas.
    pub exclude_ids: Option<String>,
    pub page: Option<u32>,
    pub per_page: Option<u32>,
}

/// What a listing asks of the store: the quizzes of the category, if one is
/// given, that are not excluded, ordered by title, cut to the window.
#[derive(Debug, Clone, PartialEq, Eq)]
pub struct QuizQuery {
    pub category_id: Option<Id>,
    pub exclude: Vec<Id>,
    pub window: PageWindow,
}

/// The identifiers that a filter excludes.
pub open spec fn excluded_by(exclude_ids: Option<String>) -> Seq<u64> {
    match exclude_ids {
        Some(s) => listed_ids(s@, 0),
        None => Seq::empty(),
    }
}

/// Reads a listing's filter. No filter is refused: a piece of `exclude_ids`
/// that is not an identifier is left out, and a page past the end is empty.
pub fn list_quizzes(filter: &ListQuizzesFilter) -> (query: QuizQuery)
    ensures
        query.category_id == filter.category_id,
        numbers_of(query.exclude@) == excluded_by(filter.exclude_ids),
        query.window == window_of(filter.page, filter.per_page),
{
    let exclude = match &filter.exclude_ids {
        Some(s) => parse_id_list(s.as_str()),
        None => {
            let none: Vec<Id> = Vec::new();
            assert(numbers_of(none@) =~= Seq::<u64>::empty());
            none
        },
    };
    QuizQuery {
        category_id: filter.category_id,
        exclude,
        window: page_window(filter.page, filter.per_page),
    }
}

/// The window of a listing of categories.
pub fn list_categories(params: &PaginationParams) -> (window: PageWindow)
    ensures
        window == window_of(params.page, params.per_page),
{
    page_window(params.page, params.per_page)
}

/// A question row with the option rows that belong to it.
#[derive(Debug, Clone, PartialEq, Eq)]
pub struct QuestionParts {
    pub row: QuestionRow,
    pub options: Vec<OptionRow>,
}

/// What is read of a quiz after its own row.
#[derive(Debug, Clone, PartialEq, Eq)]
pub struct QuizParts {
    pub questions: Vec<QuestionParts>,
    pub tags: Vec<String>,
}

/// The reads that follow the quiz row.
#[derive(Debug, Clone, Copy, PartialEq, Eq, Structural)]
pub enum FetchStep {
    Questions,
    Options,
    Tags,
}

impl FetchStep {
    /// The text of the server error for a read that failed.
    pub open spec fn failure_text(self) -> Seq<char> {
        match self {
            FetchStep::Questions => "Database error fetching questions"@,
            FetchStep::Options => "Database error fetching options"@,
            FetchStep::Tags => "Database error fetching tags"@,
        }
    }

    /// The server error for a read that failed.
    pub fn failure(&self) -> (e: ApiError)
        ensures
            e.is(ErrorKind::Store, self.failure_text()),
    {
        match self {
            FetchStep::Questions => ApiError::new(
                ErrorKind::Store,
                "Database error fetching questions",
            ),
            FetchStep::Options => ApiError::new(ErrorKind::Store, "Database error fetching options"),
            FetchStep::Tags => ApiError::new(ErrorKind::Store, "Database error fetching tags"),
        }
    }
}

pub open spec fn option_of_row(r: OptionRow) -> OptionView {
    OptionView {
        id: r.id as u64,
        text: r.text@,
        is_correct: r.is_correct,
        description: text_of(r.description),
    }
}

pub open spec fn question_of_parts(p: QuestionParts) -> QuestionView {
    QuestionView {
        id: p.row.id as u64,
        text: p.row.text@,
        options: p.options@.map_values(|r: OptionRow| option_of_row(r)),
        explanation: text_of(p.row.explanation),
    }
}

/// The identifier stored as an optional signed integer.
pub open spec fn stored_id(v: Option<i64>) -> Option<u64> {
    match v {
        Some(n) => Some(n as u64),
        None => None,
    }
}

/// The quiz that a row and its parts make up: the questions and options in
/// the order read, each tag name once.
pub open spec fn quiz_of_parts(row: QuizRow, parts: QuizParts) -> QuizView {
    QuizView {
        id: row.id as u64,
        title: row.title@,
        category_id: stored_id(row.category_id),
        questions: parts.questions@.map_values(|p: QuestionParts| question_of_parts(p)),
        tags: distinct(texts_of(parts.tags@)),
    }
}

/// The options that option rows stand for.
pub fn options_of_rows(rows: &Vec<OptionRow>) -> (out: Vec<QuestionOption>)
    ensures
        options_of(out@) == rows@.map_values(|r: OptionRow| option_of_row(r)),
{
    let mut out: Vec<QuestionOption> = Vec::new();
    let mut i: usize = 0;
    while i < rows.len()
        invariant
            i <= rows.len(),
            out@.len() == i,
            forall|j: int| 0 <= j < i ==> (#[trigger] out@[j])@ == option_of_row(rows@[j]),
        decreases rows.len() - i,
    {
        let r = &rows[i];
        out.push(
            QuestionOption {
                id: Id::from_i64(r.id),
                text: r.text.clone(),
                is_correct: r.is_correct,
                description: copy_text(&r.description),
            },
        );
        i += 1;
    }
    assert(options_of(out@) =~= rows@.map_values(|r: OptionRow| option_of_row(r)));
    out
}

/// The questions that question rows and their option rows stand for.
pub fn questions_of_parts(parts: &Vec<QuestionParts>) -> (out: Vec<Question>)
    ensures
        questions_of(out@) == parts@.map_values(|p: QuestionParts| question_of_parts(p)),
{
    let mut out: Vec<Question> = Vec::new();
    let mut i: usize = 0;
    while i < parts.len()
        invariant
            i <= parts.len(),
            out@.len() == i,
            forall|j: int| 0 <= j < i ==> (#[trigger] out@[j])@ == question_of_parts(parts@[j]),
        decreases parts.len() - i,
    {
        let p = &parts[i];
        out.push(
            Question {
                id: Id::from_i64(p.row.id),
                text: p.row.text.clone(),
                options: options_of_rows(&p.options),
                explanation: copy_text(&p.row.explanation),
            },
        );
        i += 1;
    }
    assert(questions_of(out@) =~= parts@.map_values(|p: QuestionParts| question_of_parts(p)));
    out
}

/// The quiz that a row and its parts make up.
pub fn assemble_quiz(row: &QuizRow, parts: &QuizParts) -> (quiz: Quiz)
    ensures
        quiz@ == quiz_of_parts(*row, *parts),
{
    Quiz {
        id: Id::from_i64(row.id),
        title: row.title.clone(),
        category_id: match row.category_id {
            Some(c) => Some(Id::from_i64(c)),
            None => None,
        },
        questions: questions_of_parts(&parts.questions),
        tags: distinct_names(&parts.tags),
    }
}

/// What a fetch replies. Without a quiz row the quiz is not found. Once the
/// row is there, a read that fails is a server error, and otherwise the reply
/// is the quiz that the row and its parts make up.
pub open spec fn fetch_reply(
    found: Result<Option<QuizRow>, StoreFailure>,
    parts: Result<QuizParts, FetchStep>,
) -> Result<QuizView, Refusal> {
    match found {
        Err(_) => Err((ErrorKind::Store, "Database error fetching quiz"@)),
        Ok(None) => Err((ErrorKind::NotFound, "Quiz not found"@)),
        Ok(Some(row)) => match parts {
            Err(step) => Err((ErrorKind::Store, step.failure_text())),
            Ok(p) => Ok(quiz_of_parts(row, p)),
        },
    }
}

/// The reply to a fetch, given the quiz row that was found and, if there was
/// one, what was read of its parts.
pub fn get_quiz(
    found: &Result<Option<QuizRow>, StoreFailure>,
    parts: &Result<QuizParts, FetchStep>,
) -> (r: Result<Quiz, ApiError>)
    ensures
        match fetch_reply(*found, *parts) {
            Ok(v) => r matches Ok(quiz) && quiz@ == v,
            Err(f) => r matches Err(e) && e.is(f.0, f.1),
        },
{
    match found {
        Err(_) => Err(ApiError::new(ErrorKind::Store, "Database error fetching quiz")),
        Ok(None) => Err(ApiError::new(ErrorKind::NotFound, "Quiz not found")),
        Ok(Some(row)) => match parts {
            Err(step) => Err(step.failure()),
            Ok(p) => Ok(assemble_quiz(row, p)),
        },
    }
}

/// What is read of a question when an answer is graded.
#[derive(Debug, Clone, PartialEq, Eq)]
pub struct QuestionFacts {
    pub quiz_id: i64,
    pub explanation: Option<String>,
}

/// A graded answer, and the record of the attempt if one is to be kept.
#[derive(Debug, Clone, PartialEq, Eq)]
pub struct Graded {
    pub response: AnswerResponse,
    pub record: Option<Statement>,
}

/// Whether an attempt is recorded: the request names an end user, and the
/// name resolves.
pub open spec fn is_recorded(req: SubmitAnswerRequest, user: Result<Option<i64>, StoreFailure>) -> bool {
    req.user_email is Some && user matches Ok(Some(_))
}

/// Whether `s` records the attempt of `req` by end user `user` on a question
/// of quiz `quiz` with the result `correct`.
pub open spec fn records_attempt(
    s: StatementView,
    req: SubmitAnswerRequest,
    user: i64,
    quiz: i64,
    correct: bool,
) -> bool {
    match s {
        StatementView::InsertAnswer {
            id,
            user_id,
            quiz_id,
            question_id,
            option_id,
            is_correct,
        } => user_id == user as u64 && quiz_id == quiz as u64 && question_id
            == req.question_id.number() && option_id == req.option_id.number() && is_correct
            == correct,
        _ => false,
    }
}

/// The text that tells the result of an answer.
pub open spec fn verdict(correct: bool) -> Seq<char> {
    if correct {
        "Correct!"@
    } else {
        "Incorrect."@
    }
}

/// Whether `g` is the grading of `req` for an option with flag `correct` of a
/// question with the facts `facts`.
pub open spec fn grades(
    g: Graded,
    req: SubmitAnswerRequest,
    correct: bool,
    facts: QuestionFacts,
    user: Result<Option<i64>, StoreFailure>,
) -> bool {
    &&& g.response.correct == correct
    &&& g.response.message@ == verdict(correct)
    &&& text_of(g.response.explanation) == text_of(facts.explanation)
    &&& match g.record {
        Some(s) => is_recorded(req, user) && records_attempt(
            s@,
            req,
            user->Ok_0->Some_0,
            facts.quiz_id,
            correct,
        ),
        None => !is_recorded(req, user),
    }
}

/// Grades an answer. `option` is the correctness flag of the option with the
/// request's identifier under the request's question, if there is such an
/// option; `question` is what is known of the question; `user` is the end
/// user that the request's email resolves to.
///
/// An option that does not belong to the question makes the request invalid.
/// Otherwise the reply tells the flag and the question's explanation,
/// whatever the flag. The attempt is recorded only for a known end user.
pub fn submit_answer(
    req: &SubmitAnswerRequest,
    option: Result<Option<bool>, StoreFailure>,
    question: &Result<Option<QuestionFacts>, StoreFailure>,
    user: Result<Option<i64>, StoreFailure>,
) -> (r: Result<Graded, ApiError>)
    ensures
        match option {
            Err(_) => r matches Err(e) && e.is(ErrorKind::Store, "Database error"@),
            Ok(None) => r matches Err(e) && e.is(
                ErrorKind::InvalidRequest,
                "Invalid question or option"@,
            ),
            Ok(Some(correct)) => match *question {
                Ok(Some(facts)) => r matches Ok(g) && grades(g, *req, correct, facts, user),
                _ => r matches Err(e) && e.is(ErrorKind::Store, "Database error"@),
            },
        },
{
    let correct = match option {
        Err(_) => {
            return Err(ApiError::new(ErrorKind::Store, "Database error"));
        },
        Ok(None) => {
            return Err(ApiError::new(ErrorKind::InvalidRequest, "Invalid question or option"));
        },
        Ok(Some(flag)) => flag,
    };
    let facts = match question {
        Ok(Some(f)) => f,
        _ => {
            return Err(ApiError::new(ErrorKind::Store, "Database error"));
        },
    };
    let record = match (&req.user_email, user) {
        (Some(_), Ok(Some(user_id))) => Some(
            Statement::InsertAnswer {
                id: Id::new(),
                user_id: Id::from_i64(user_id),
                quiz_id: Id::from_i64(facts.quiz_id),
                question_id: req.question_id,
                option_id: req.option_id,
                is_correct: correct,
            },
        ),
        _ => None,
    };
    let message = if correct {
        "Correct!".to_owned()
    } else {
        "Incorrect.".to_owned()
    };
    Ok(
        Graded {
            response: AnswerResponse {
                correct,
                message,
                explanation: copy_text(&facts.explanation),
            },
            record,
        },
    )
}

/// Two answers to one question get the same explanation, and each gets the
/// flag of the option it chose.
pub proof fn law_explanation_regardless_of_correctness(
    right: Graded,
    wrong: Graded,
    req_right: SubmitAnswerRequest,
    req_wrong: SubmitAnswerRequest,
    facts: QuestionFacts,
    user: Result<Option<i64>, StoreFailure>,
)
    requires
        grades(right, req_right, true, facts, user),
        grades(wrong, req_wrong, false, facts, user),
    ensures
        right.response.correct,
        !wrong.response.correct,
        text_of(right.response.explanation) == text_of(wrong.response.explanation),
        text_of(right.response.explanation) == text_of(facts.explanation),
{
}

/// Whether `c` is a letter or a digit of any script.
pub uninterp spec fn unicode_alphanumeric(c: char) -> bool;

/// Calls `char::is_alphanumeric`.
#[verifier::external_body]
fn char_is_alphanumeric(c: char) -> (r: bool)
    ensures
        r == unicode_alphanumeric(c),
{
    c.is_alphanumeric()
}

/// Calls `Rng::gen_range` of `rand::thread_rng()` on the range from 0 up to,
/// not including, `n`. The range must not be empty.
#[verifier::external_body]
fn random_below(n: usize) -> (i: usize)
    requires
        n > 0,
    ensures
        i < n,
{
    rand::Rng::gen_range(&mut rand::thread_rng(), 0..n)
}

/// The parameters of a random draw, as the request gives them.
#[derive(Debug, Clone, PartialEq, Eq)]
pub struct RandomQuizParams {
    pub tag: Option<String>,
    pub user_email: Option<String>,
}

/// A character that a tag name may hold.
pub open spec fn tag_char(c: char) -> bool {
    unicode_alphanumeric(c) || c == '_' || c == '-'
}

/// A tag name that a filter may hold: letters, digits, `_` and `-` only.
pub open spec fn valid_tag(tag: Seq<char>) -> bool {
    forall|i: int| 0 <= i < tag.len() ==> tag_char(#[trigger] tag[i])
}

/// Whether a tag name may stand in a filter.
pub fn is_valid_tag(tag: &str) -> (ok: bool)
    ensures
        ok == valid_tag(tag@),
{
    let n = tag.unicode_len();
    let mut i: usize = 0;
    while i < n
        invariant
            n == tag@.len(),
            i <= n,
            forall|j: int| 0 <= j < i ==> tag_char(#[trigger] tag@[j]),
        decreases n - i,
    {
        let c = tag.get_char(i);
        if !(char_is_alphanumeric(c) || c == '_' || c == '-') {
            return false;
        }
        i += 1;
    }
    true
}

/// Reads the parameters of a random draw. A tag with a character outside
/// letters, digits, `_` and `-` is refused before anything is asked of the
/// store; every other request goes on unchanged.
pub fn get_random_quiz(params: &RandomQuizParams) -> (r: Result<RandomQuizParams, ApiError>)
    ensures
        match params.tag {
            Some(tag) if !valid_tag(tag@) => r matches Err(e) && e.is(
                ErrorKind::InvalidRequest,
                "Invalid tag format"@,
            ),
            _ => r matches Ok(p) && text_of(p.tag) == text_of(params.tag) && text_of(p.user_email)
                == text_of(params.user_email),
        },
{
    if let Some(tag) = &params.tag {
        if !is_valid_tag(tag.as_str()) {
            return Err(ApiError::new(ErrorKind::InvalidRequest, "Invalid tag format"));
        }
    }
    Ok(RandomQuizParams { tag: copy_text(&params.tag), user_email: copy_text(&params.user_email) })
}

/// Whether `ids` holds `id`.
pub fn holds_id(ids: &Vec<Id>, id: Id) -> (found: bool)
    ensures
        found == ids@.contains(id),
{
    let mut i: usize = 0;
    while i < ids.len()
        invariant
            i <= ids.len(),
            forall|j: int| 0 <= j < i ==> ids@[j] != id,
        decreases ids.len() - i,
    {
        if ids[i] == id {
            return true;
        }
        i += 1;
    }
    false
}

/// The quizzes of `matching` that are not in `answered`, in order.
pub fn unanswered(matching: &Vec<Id>, answered: &Vec<Id>) -> (out: Vec<Id>)
    ensures
        out@ == matching@.filter(|id: Id| !answered@.contains(id)),
{
    let mut out: Vec<Id> = Vec::new();
    let mut i: usize = 0;
    let ghost keep = |id: Id| !answered@.contains(id);
    assert(matching@.subrange(0, 0) =~= Seq::<Id>::empty());
    assert(Seq::<Id>::empty().filter(keep) =~= Seq::<Id>::empty()) by {
        reveal(Seq::filter);
    }
    while i < matching.len()
        invariant
            i <= matching.len(),
            keep == (|id: Id| !answered@.contains(id)),
            out@ == matching@.subrange(0, i as int).filter(keep),
        decreases matching.len() - i,
    {
        let id = matching[i];
        proof {
            let done = matching@.subrange(0, i as int);
            let next = matching@.subrange(0, i + 1);
            assert(next.drop_last() =~= done);
            assert(next.last() == id);
            reveal(Seq::filter);
        }
        if !holds_id(answered, id) {
            out.push(id);
        }
        i += 1;
    }
    assert(matching@.subrange(0, i as int) =~= matching@);
    out
}

/// The candidate at place `draw`, or `NotFound` if there is no candidate.
pub fn drawn_quiz(candidates: &Vec<Id>, draw: usize) -> (r: Result<Id, ApiError>)
    requires
        candidates@.len() > 0 ==> draw < candidates@.len(),
    ensures
        match r {
            Ok(id) => candidates@.len() > 0 && id == candidates@[draw as int],
            Err(e) => candidates@.len() == 0 && e.is(ErrorKind::NotFound, "No quizzes found"@),
        },
{
    if candidates.len() == 0 {
        Err(ApiError::new(ErrorKind::NotFound, "No quizzes found"))
    } else {
        Ok(candidates[draw])
    }
}

/// Draws a quiz at random from those of `matching` that the end user has not
/// answered yet. A quiz in `answered` is never drawn; if every matching quiz
/// is answered, or none matches, no quiz is found.
pub fn choose_quiz(matching: &Vec<Id>, answered: &Vec<Id>) -> (r: Result<Id, ApiError>)
    ensures
        match r {
            Ok(id) => matching@.contains(id) && !answered@.contains(id),
            Err(e) => e.is(ErrorKind::NotFound, "No quizzes found"@) && forall|i: int|
                0 <= i < matching@.len() ==> answered@.contains(#[trigger] matching@[i]),
        },
{
    let candidates = unanswered(matching, answered);
    let ghost keep = |id: Id| !answered@.contains(id);
    let draw = if candidates.len() > 0 {
        random_below(candidates.len())
    } else {
        0
    };
    let r = drawn_quiz(&candidates, draw);
    proof {
        if candidates@.len() == 0 {
            assert forall|i: int| 0 <= i < matching@.len() implies answered@.contains(
                #[trigger] matching@[i],
            ) by {
                if keep(matching@[i]) {
                    matching@.lemma_filter_contains(keep, i);
                }
            }
        } else {
            let id = candidates@[draw as int];
            matching@.lemma_filter_pred(keep, draw as int);
            assert(candidates@.contains(id));
            matching@.lemma_filter_contains_rev(keep, id);
        }
    }
    r
}

/// The statement that registers an end user, under a fresh identifier, unless
/// the email is known.
pub fn create_user(req: &CreateEndUserRequest) -> (statement: Statement)
    ensures
        statement@ matches StatementView::InsertEndUser { id, email } && email == req.email@,
{
    Statement::InsertEndUser { id: Id::new(), email: req.email.clone() }
}

/// The reply to a registration: the end user that now has the email, who is
/// the earlier one if the email was known.
pub fn create_user_reply(found: Result<Option<EndUser>, StoreFailure>) -> (r: Result<
    EndUser,
    ApiError,
>)
    ensures
        match found {
            Ok(Some(user)) => r matches Ok(u) && u.id == user.id && u.email@ == user.email@,
            _ => r matches Err(e) && e.is(ErrorKind::Store, "Failed to register user"@),
        },
{
    match found {
        Ok(Some(user)) => Ok(user),
        _ => Err(ApiError::new(ErrorKind::Store, "Failed to register user")),
    }
}

/// No attempt stands before a later one.
pub open spec fn most_recent_first(rows: Seq<UserAnswerHistory>) -> bool {
    forall|i: int, j: int|
        0 <= i < j < rows.len() ==> (#[trigger] rows[i]).created_at >= (
        #[trigger] rows[j]).created_at
}

proof fn lemma_insert_to_multiset(s: Seq<UserAnswerHistory>, k: int, x: UserAnswerHistory)
    requires
        0 <= k <= s.len(),
    ensures
        s.insert(k, x).to_multiset() == s.to_multiset().insert(x),
{
    let t = s.insert(k, x);
    t.to_multiset_ensures();
    assert(t.remove(k) =~= s);
    assert(t[k] == x);
    assert(t.contains(x));
    assert(t.to_multiset() =~= s.to_multiset().insert(x));
}

/// The attempts of `rows`, the most recent first.
pub fn order_history(rows: &Vec<UserAnswerHistory>) -> (out: Vec<UserAnswerHistory>)
    ensures
        most_recent_first(out@),
        out@.to_multiset() == rows@.to_multiset(),
{
    let mut out: Vec<UserAnswerHistory> = Vec::new();
    let mut i: usize = 0;
    assert(rows@.subrange(0, 0) =~= out@);
    while i < rows.len()
        invariant
            i <= rows.len(),
            most_recent_first(out@),
            out@.len() == i,
            out@.to_multiset() == rows@.subrange(0, i as int).to_multiset(),
        decreases rows.len() - i,
    {
        let row = rows[i];
        let mut k: usize = 0;
        while k < out.len() && out[k].created_at >= row.created_at
            invariant
                k <= out.len(),
                forall|j: int| 0 <= j < k ==> (#[trigger] out@[j]).created_at >= row.created_at,
            decreases out.len() - k,
        {
            k += 1;
        }
        let ghost before = out@;
        out.insert(k, row);
        proof {
            lemma_insert_to_multiset(before, k as int, row);
            let done = rows@.subrange(0, i as int);
            assert(rows@.subrange(0, i + 1) =~= done.push(row));
            done.to_multiset_ensures();
            assert forall|a: int, b: int| 0 <= a < b < out@.len() implies (
            #[trigger] out@[a]).created_at >= (#[trigger] out@[b]).created_at by {
                if a < k && b > k {
                    assert(out@[a] == before[a]);
                    assert(out@[b] == before[b - 1]);
                } else if a < k && b == k {
                    assert(out@[a] == before[a]);
                } else if a < k {
                    assert(out@[a] == before[a]);
                    assert(out@[b] == before[b]);
                } else if a == k {
                    assert(out@[b] == before[b - 1]);
                    assert(before[k as int].created_at < row.created_at);
                    if b - 1 > k {
                        assert(before[k as int].created_at >= before[b - 1].created_at);
                    }
                } else {
                    assert(out@[a] == before[a - 1]);
                    assert(out@[b] == before[b - 1]);
                }
            }
        }
        i += 1;
    }
    assert(rows@.subrange(0, i as int) =~= rows@);
    out
}

/// The reply to a request for an end user's attempts: all attempts read, the
/// most recent first, or `NotFound` if the email is not known.
pub fn get_history(
    user: Result<Option<i64>, StoreFailure>,
    attempts: Result<Vec<UserAnswerHistory>, StoreFailure>,
) -> (r: Result<Vec<UserAnswerHistory>, ApiError>)
    ensures
        match user {
            Err(_) => r matches Err(e) && e.is(ErrorKind::Store, "Database error"@),
            Ok(None) => r matches Err(e) && e.is(ErrorKind::NotFound, "User not found"@),
            Ok(Some(_)) => match attempts {
                Ok(rows) => r matches Ok(out) && most_recent_first(out@) && out@.to_multiset()
                    == rows@.to_multiset(),
                Err(_) => r matches Err(e) && e.is(
                    ErrorKind::Store,
                    "Database error fetching history"@,
                ),
            },
        },
{
    match user {
        Err(_) => Err(ApiError::new(ErrorKind::Store, "Database error")),
        Ok(None) => Err(ApiError::new(ErrorKind::NotFound, "User not found")),
        Ok(Some(_)) => match attempts {
            Ok(rows) => Ok(order_history(&rows)),
            Err(_) => Err(ApiError::new(ErrorKind::Store, "Database error fetching history")),
        },
    }
}

/// The audit entry of one consumption call: the key, the endpoint's name and
/// the status of the reply, under a fresh identifier.
pub fn usage_log(key: &ApiKeyMiddleware, endpoint: &str, status: u16) -> (statement: Statement)
    ensures
        statement@ matches StatementView::LogUsage { id, api_key_id, endpoint: name, status_code }
            && api_key_id == key.api_key_id.number() && name == endpoint@ && status_code
            == status as i32,
{
    Statement::LogUsage {
        id: Id::new(),
        api_key_id: key.api_key_id,
        endpoint: endpoint.to_owned(),
        status_code: status as i32,
    }
}

/// A category under a fresh identifier, and the statement that stores it.
pub fn create_category(req: &CreateCategoryRequest) -> (made: (Category, Statement))
    ensures
        made.0.name@ == req.name@,
        made.1@ == (StatementView::InsertCategory { id: made.0.id.number(), name: req.name@ }),
{
    let id = Id::new();
    (Category { id, name: req.name.clone() }, Statement::InsertCategory { id, name: req.name.clone() })
}

/// The reply to the insert of a category.
pub fn create_category_outcome(inserted: Result<(), StoreFailure>) -> (r: Result<(), ApiError>)
    ensures
        match inserted {
            Ok(_) => r is Ok,
            Err(_) => r matches Err(e) && e.is(ErrorKind::Store, "Failed to create category"@),
        },
{
    match inserted {
        Ok(_) => Ok(()),
        Err(_) => Err(ApiError::new(ErrorKind::Store, "Failed to create category")),
    }
}

/// Plans a registration: the developer's row, with a hash of the password in
/// place of the password.
pub fn auth_register(req: &RegisterRequest) -> (r: Result<Statement, ApiError>)
    ensures
        match r {
            Ok(s) => s@ matches StatementView::InsertDeveloper { id, username, password_hash }
                && username == req.username@ && password_verifies(password_hash, req.password@),
            Err(e) => e.is(ErrorKind::Store, "Hashing failed"@),
        },
{
    match auth::hash_password(req.password.as_str()) {
        Ok(password_hash) => Ok(
            Statement::InsertDeveloper {
                id: Id::new(),
                username: req.username.clone(),
                password_hash,
            },
        ),
        Err(_) => Err(ApiError::new(ErrorKind::Store, "Hashing failed")),
    }
}

/// What a registration replies, given whether the store took the row.
pub open spec fn register_reply(inserted: Result<(), StoreFailure>) -> Result<Seq<char>, Refusal> {
    match inserted {
        Ok(_) => Ok("Registered successfully"@),
        Err(_) => Err((ErrorKind::Store, "Registration failed (username might be taken)"@)),
    }
}

/// The reply to the insert of a developer. The store refuses a name that is
/// taken, and the registration then fails.
pub fn register_outcome(inserted: Result<(), StoreFailure>) -> (r: Result<&'static str, ApiError>)
    ensures
        match register_reply(inserted) {
            Ok(text) => r matches Ok(t) && t@ == text,
            Err(f) => r matches Err(e) && e.is(f.0, f.1),
        },
{
    match inserted {
        Ok(_) => Ok("Registered successfully"),
        Err(_) => Err(
            ApiError::new(ErrorKind::Store, "Registration failed (username might be taken)"),
        ),
    }
}

/// Whether a login with `password` is let in, given the developer found
/// under the name.
pub open spec fn login_admits(found: Result<Option<Developer>, StoreFailure>, password: Seq<char>) -> bool {
    found matches Ok(Some(d)) && password_verifies(d.password_hash@, password)
}

/// Logs a developer in. An unknown name and a wrong password get the same
/// rejection. A developer who is let in gets a token that carries their name
/// and number, unless no token can be issued.
pub fn auth_login(found: &Result<Option<Developer>, StoreFailure>, req: &LoginRequest) -> (r: Result<
    TokenResponse,
    ApiError,
>)
    ensures
        match r {
            Ok(t) => login_admits(*found, req.password@) && auth::issued(
                t.token@,
                found->Ok_0->Some_0.username@,
                found->Ok_0->Some_0.id.stored(),
            ),
            Err(e) => match *found {
                Err(_) => e.is(ErrorKind::Store, "Database error"@),
                Ok(None) => e.is(ErrorKind::Unauthorized, "Invalid credentials"@),
                Ok(Some(d)) => if password_verifies(d.password_hash@, req.password@) {
                    e.is(ErrorKind::Store, "Token creation failed"@)
                } else {
                    e.is(ErrorKind::Unauthorized, "Invalid credentials"@)
                },
            },
        },
{
    match found {
        Err(_) => Err(ApiError::new(ErrorKind::Store, "Database error")),
        Ok(None) => Err(ApiError::new(ErrorKind::Unauthorized, "Invalid credentials")),
        Ok(Some(d)) => {
            if !auth::verify_password(d.password_hash.as_str(), req.password.as_str()) {
                return Err(ApiError::new(ErrorKind::Unauthorized, "Invalid credentials"));
            }
            match auth::create_token(d.username.as_str(), d.id) {
                Ok(token) => Ok(TokenResponse { token }),
                Err(_) => Err(ApiError::new(ErrorKind::Store, "Token creation failed")),
            }
        },
    }
}

/// The reply to a developer's request for their own account.
pub fn get_me(found: Result<Option<DeveloperResponse>, StoreFailure>) -> (r: Result<
    DeveloperResponse,
    ApiError,
>)
    ensures
        match found {
            Ok(Some(d)) => r matches Ok(me) && me.id == d.id && me.username@ == d.username@,
            Ok(None) => r matches Err(e) && e.is(ErrorKind::Unauthorized, "Developer not found"@),
            Err(_) => r matches Err(e) && e.is(ErrorKind::Store, "Database error"@),
        },
{
    match found {
        Ok(Some(d)) => Ok(d),
        Ok(None) => Err(ApiError::new(ErrorKind::Unauthorized, "Developer not found")),
        Err(_) => Err(ApiError::new(ErrorKind::Store, "Database error")),
    }
}

/// A new API key and the statement that stores its digest.
#[derive(Debug, Clone, PartialEq, Eq)]
pub struct IssuedKey {
    /// The key, shown once and kept nowhere.
    pub api_key: String,
    pub statement: Statement,
}

/// Issues an API key to the developer found under the token's name. The row
/// to store holds a digest of the key, not the key.
pub fn generate_api_key(developer: Result<Option<Id>, StoreFailure>) -> (r: Result<
    IssuedKey,
    ApiError,
>)
    ensures
        match developer {
            Ok(Some(owner)) => r matches Ok(k) && k.api_key@.len() == auth::api_key_length() && (
            forall|i: int|
                0 <= i < k.api_key@.len() ==> auth::is_ascii_alphanumeric(
                    #[trigger] k.api_key@[i],
                )) && (k.statement@ matches StatementView::InsertApiKey {
                id,
                developer_id,
                key_hash,
            } && developer_id == owner.number() && key_hash == sha256_hex(k.api_key@)),
            Ok(None) => r matches Err(e) && e.is(ErrorKind::Unauthorized, "Developer not found"@),
            Err(_) => r matches Err(e) && e.is(ErrorKind::Store, "Database error"@),
        },
{
    match developer {
        Ok(Some(owner)) => {
            let (api_key, key_hash) = auth::generate_api_key();
            Ok(
                IssuedKey {
                    api_key,
                    statement: Statement::InsertApiKey {
                        id: Id::new(),
                        developer_id: owner,
                        key_hash,
                    },
                },
            )
        },
        Ok(None) => Err(ApiError::new(ErrorKind::Unauthorized, "Developer not found")),
        Err(_) => Err(ApiError::new(ErrorKind::Store, "Database error")),
    }
}

/// The reply to the insert of an API key.
pub fn api_key_outcome(inserted: Result<(), StoreFailure>) -> (r: Result<(), ApiError>)
    ensures
        match inserted {
            Ok(_) => r is Ok,
            Err(_) => r matches Err(e) && e.is(ErrorKind::Store, "Failed to create API key"@),
        },
{
    match inserted {
        Ok(_) => Ok(()),
        Err(_) => Err(ApiError::new(ErrorKind::Store, "Failed to create API key")),
    }
}

/// The text of the server error for a statement that the store refused.
pub open spec fn write_failure_text(s: StatementView) -> Seq<char> {
    match s {
        StatementView::InsertQuiz { .. } => "Failed to insert quiz"@,
        StatementView::InsertQuestion { .. } => "Failed to insert question"@,
        StatementView::InsertOption { .. } => "Failed to insert option"@,
        StatementView::UpsertTag { .. } => "Failed to upsert tag"@,
        StatementView::LinkTag { .. } => "Failed to link tag"@,
        StatementView::SetTitle { .. } => "Error updating title"@,
        StatementView::SetCategory { .. } => "Error updating category"@,
        StatementView::ClearTags { .. } => "Error clearing tags"@,
        _ => "Database error"@,
    }
}

/// The server error for a statement that the store refused. The whole plan is
/// then undone, and the client is told which kind of write failed, nothing
/// more.
pub fn write_failure(statement: &Statement) -> (e: ApiError)
    ensures
        e.is(ErrorKind::Store, write_failure_text(statement@)),
{
    match statement {
        Statement::InsertQuiz { .. } => ApiError::new(ErrorKind::Store, "Failed to insert quiz"),
        Statement::InsertQuestion { .. } => ApiError::new(
            ErrorKind::Store,
            "Failed to insert question",
        ),
        Statement::InsertOption { .. } => ApiError::new(
            ErrorKind::Store,
            "Failed to insert option",
        ),
        Statement::UpsertTag { .. } => ApiError::new(ErrorKind::Store, "Failed to upsert tag"),
        Statement::LinkTag { .. } => ApiError::new(ErrorKind::Store, "Failed to link tag"),
        Statement::SetTitle { .. } => ApiError::new(ErrorKind::Store, "Error updating title"),
        Statement::SetCategory { .. } => ApiError::new(
            ErrorKind::Store,
            "Error updating category",
        ),
        Statement::ClearTags { .. } => ApiError::new(ErrorKind::Store, "Error clearing tags"),
        _ => ApiError::new(ErrorKind::Store, "Database error"),
    }
}

} // verus!
