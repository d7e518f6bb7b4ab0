//! The statements that the engine asks the relational store to run, and the
//! rows that the store hands back.
//!
//! A plan is a list of statements to run in one transaction, in order. The
//! store either runs all of them or none.

use crate::id::Id;
use crate::models::{number_of, text_of, texts_of};
use vstd::prelude::*;

verus! {

/// One write to the store.
#[derive(Debug, Clone, PartialEq, Eq)]
pub enum Statement {
    InsertQuiz { id: Id, title: String, category_id: Option<Id> },
    InsertQuestion { id: Id, quiz_id: Id, text: String, explanation: Option<String> },
    InsertOption {
        id: Id,
        question_id: Id,
        text: String,
        is_correct: bool,
        description: Option<String>,
    },
    /// Adds the tag `name` under `id` unless a tag of that name exists.
    UpsertTag { id: Id, name: String },
    /// Links the quiz to the tag `name` unless it is linked already.
    LinkTag { quiz_id: Id, name: String },
    SetTitle { quiz_id: Id, title: String },
    SetCategory { quiz_id: Id, category_id: Id },
    /// Removes every tag link of the quiz.
    ClearTags { quiz_id: Id },
    /// Removes the quiz and, with it, its questions, options and tag links.
    DeleteQuiz { id: Id },
    InsertCategory { id: Id, name: String },
    InsertDeveloper { id: Id, username: String, password_hash: String },
    InsertApiKey { id: Id, developer_id: Id, key_hash: String },
    /// Adds the end user unless the email is known.
    InsertEndUser { id: Id, email: String },
    InsertAnswer {
        id: Id,
        user_id: Id,
        quiz_id: Id,
        question_id: Id,
        option_id: Id,
        is_correct: bool,
    },
    LogUsage { id: Id, api_key_id: Id, endpoint: String, status_code: i32 },
}

/// The mathematical content of a `Statement`.
pub enum StatementView {
    InsertQuiz { id: u64, title: Seq<char>, category_id: Option<u64> },
    InsertQuestion { id: u64, quiz_id: u64, text: Seq<char>, explanation: Option<Seq<char>> },
    InsertOption {
        id: u64,
        question_id: u64,
        text: Seq<char>,
        is_correct: bool,
        description: Option<Seq<char>>,
    },
    UpsertTag { id: u64, name: Seq<char> },
    LinkTag { quiz_id: u64, name: Seq<char> },
    SetTitle { quiz_id: u64, title: Seq<char> },
    SetCategory { quiz_id: u64, category_id: u64 },
    ClearTags { quiz_id: u64 },
    DeleteQuiz { id: u64 },
    InsertCategory { id: u64, name: Seq<char> },
    InsertDeveloper { id: u64, username: Seq<char>, password_hash: Seq<char> },
    InsertApiKey { id: u64, developer_id: u64, key_hash: Seq<char> },
    InsertEndUser { id: u64, email: Seq<char> },
    InsertAnswer {
        id: u64,
        user_id: u64,
        quiz_id: u64,
        question_id: u64,
        option_id: u64,
        is_correct: bool,
    },
    LogUsage { id: u64, api_key_id: u64, endpoint: Seq<char>, status_code: i32 },
}

impl View for Statement {
    type V = StatementView;

    open spec fn view(&self) -> StatementView {
        match *self {
            Statement::InsertQuiz { id, title, category_id } => StatementView::InsertQuiz {
                id: id.number(),
                title: title@,
                category_id: number_of(category_id),
            },
            Statement::InsertQuestion {
                id,
                quiz_id,
                text,
                explanation,
            } => StatementView::InsertQuestion {
                id: id.number(),
                quiz_id: quiz_id.number(),
                text: text@,
                explanation: text_of(explanation),
            },
            Statement::InsertOption {
                id,
                question_id,
                text,
                is_correct,
                description,
            } => StatementView::InsertOption {
                id: id.number(),
                question_id: question_id.number(),
                text: text@,
                is_correct,
                description: text_of(description),
            },
            Statement::UpsertTag { id, name } => StatementView::UpsertTag {
                id: id.number(),
                name: name@,
            },
            Statement::LinkTag { quiz_id, name } => StatementView::LinkTag {
                quiz_id: quiz_id.number(),
                name: name@,
            },
            Statement::SetTitle { quiz_id, title } => StatementView::SetTitle {
                quiz_id: quiz_id.number(),
                title: title@,
            },
            Statement::SetCategory { quiz_id, category_id } => StatementView::SetCategory {
                quiz_id: quiz_id.number(),
                category_id: category_id.number(),
            },
            Statement::ClearTags { quiz_id } => StatementView::ClearTags {
                quiz_id: quiz_id.number(),
            },
            Statement::DeleteQuiz { id } => StatementView::DeleteQuiz { id: id.number() },
            Statement::InsertCategory { id, name } => StatementView::InsertCategory {
                id: id.number(),
                name: name@,
            },
            Statement::InsertDeveloper {
                id,
                username,
                password_hash,
            } => StatementView::InsertDeveloper {
                id: id.number(),
                username: username@,
                password_hash: password_hash@,
            },
            Statement::InsertApiKey { id, developer_id, key_hash } => StatementView::InsertApiKey {
                id: id.number(),
                developer_id: developer_id.number(),
                key_hash: key_hash@,
            },
            Statement::InsertEndUser { id, email } => StatementView::InsertEndUser {
                id: id.number(),
                email: email@,
            },
            Statement::InsertAnswer {
                id,
                user_id,
                quiz_id,
                question_id,
                option_id,
                is_correct,
            } => StatementView::InsertAnswer {
                id: id.number(),
                user_id: user_id.number(),
                quiz_id: quiz_id.number(),
                question_id: question_id.number(),
                option_id: option_id.number(),
                is_correct,
            },
            Statement::LogUsage {
                id,
                api_key_id,
                endpoint,
                status_code,
            } => StatementView::LogUsage {
                id: id.number(),
                api_key_id: api_key_id.number(),
                endpoint: endpoint@,
                status_code,
            },
        }
    }
}

/// The contents of a plan.
pub open spec fn plan_of(v: Seq<Statement>) -> Seq<StatementView> {
    v.map_values(|s: Statement| s@)
}

/// The numbers of a list of identifiers.
pub open spec fn numbers_of(v: Seq<Id>) -> Seq<u64> {
    v.map_values(|i: Id| i.number())
}

/// A quiz row as the store holds it.
#[derive(Debug, Clone, PartialEq, Eq)]
pub struct QuizRow {
    pub id: i64,
    pub title: String,
    pub category_id: Option<i64>,
}

/// A question row, without its options.
#[derive(Debug, Clone, PartialEq, Eq)]
pub struct QuestionRow {
    pub id: i64,
    pub text: String,
    pub explanation: Option<String>,
}

/// An option row.
#[derive(Debug, Clone, PartialEq, Eq)]
pub struct OptionRow {
    pub id: i64,
    pub text: String,
    pub is_correct: bool,
    pub description: Option<String>,
}

/// The names of `names` without repetition, each at its first place.
pub open spec fn distinct(names: Seq<Seq<char>>) -> Seq<Seq<char>>
    decreases names.len(),
{
    if names.len() == 0 {
        Seq::empty()
    } else {
        let before = distinct(names.drop_last());
        if before.contains(names.last()) {
            before
        } else {
            before.push(names.last())
        }
    }
}

/// `distinct` repeats no name and keeps exactly the names it was given.
pub proof fn lemma_distinct(names: Seq<Seq<char>>)
    ensures
        distinct(names).no_duplicates(),
        forall|n: Seq<char>| #[trigger] distinct(names).contains(n) <==> names.contains(n),
        distinct(names).len() <= names.len(),
    decreases names.len(),
{
    if names.len() > 0 {
        let head = names.drop_last();
        let last = names.last();
        lemma_distinct(head);
        let before = distinct(head);
        let out = distinct(names);
        assert forall|n: Seq<char>| #[trigger] out.contains(n) <==> names.contains(n) by {
            assert(before.contains(n) <==> head.contains(n));
            if names.contains(n) {
                let i = choose|i: int| 0 <= i < names.len() && names[i] == n;
                if i < names.len() - 1 {
                    assert(head[i] == n);
                    assert(head.contains(n));
                }
            }
            if head.contains(n) {
                let i = choose|i: int| 0 <= i < head.len() && head[i] == n;
                assert(names[i] == n);
            }
            assert(names[names.len() - 1] == last);
            assert(names.contains(n) <==> (head.contains(n) || n == last));
            if before.contains(last) {
                assert(out == before);
            } else {
                assert(out == before.push(last));
                assert(out[before.len() as int] == last);
                if before.contains(n) {
                    let k = choose|k: int| 0 <= k < before.len() && before[k] == n;
                    assert(out[k] == n);
                }
                if out.contains(n) {
                    let k = choose|k: int| 0 <= k < out.len() && out[k] == n;
                    if k < before.len() {
                        assert(before[k] == n);
                    }
                }
            }
        }
    }
}

/// Whether `names` holds `name`.
pub fn holds_name(names: &Vec<String>, name: &String) -> (found: bool)
    ensures
        found == texts_of(names@).contains(name@),
{
    let mut i: usize = 0;
    while i < names.len()
        invariant
            i <= names.len(),
            forall|j: int| 0 <= j < i ==> names@[j]@ != name@,
        decreases names.len() - i,
    {
        if names[i] == *name {
            assert(texts_of(names@)[i as int] == name@);
            return true;
        }
        i += 1;
    }
    false
}

/// The names of `names` without repetition, each at its first place.
pub fn distinct_names(names: &Vec<String>) -> (out: Vec<String>)
    ensures
        texts_of(out@) == distinct(texts_of(names@)),
{
    let mut out: Vec<String> = Vec::new();
    let mut i: usize = 0;
    assert(texts_of(names@).subrange(0, 0) =~= Seq::empty());
    assert(texts_of(out@) =~= Seq::empty());
    while i < names.len()
        invariant
            i <= names.len(),
            texts_of(out@) == distinct(texts_of(names@).subrange(0, i as int)),
        decreases names.len() - i,
    {
        let ghost all = texts_of(names@);
        let ghost old_out = texts_of(out@);
        assert(all.subrange(0, i + 1).drop_last() =~= all.subrange(0, i as int));
        assert(all.subrange(0, i + 1).last() == names@[i as int]@);
        if !holds_name(&out, &names[i]) {
            out.push(names[i].clone());
            assert(texts_of(out@) =~= old_out.push(names@[i as int]@));
        }
        i += 1;
    }
    assert(texts_of(names@).subrange(0, i as int) =~= texts_of(names@));
    out
}

} // verus!
