//! The write plans of the quiz aggregate: which statements create a quiz,
//! which update it, and what they leave of its tags.

use crate::id::Id;
use crate::models::{
    copy_text, number_of, options_of, questions_of, text_of, texts_of, CreateOptionRequest,
    CreateQuestionRequest, CreateQuizRequest, OptionView, Question, QuestionOption, QuestionView,
    Quiz, QuizView,
};
use crate::store::{distinct, numbers_of, plan_of, Statement, StatementView};
use vstd::prelude::*;

verus! {

/// The insert of one option.
pub open spec fn option_statement(question_id: u64, o: OptionView) -> StatementView {
    StatementView::InsertOption {
        id: o.id,
        question_id,
        text: o.text,
        is_correct: o.is_correct,
        description: o.description,
    }
}

/// The inserts of a question's options, in order.
pub open spec fn option_statements(question_id: u64, options: Seq<OptionView>) -> Seq<
    StatementView,
> {
    Seq::new(options.len(), |i: int| option_statement(question_id, options[i]))
}

/// The insert of a question, then those of its options.
pub open spec fn question_statements(quiz_id: u64, q: QuestionView) -> Seq<StatementView> {
    seq![
        StatementView::InsertQuestion {
            id: q.id,
            quiz_id,
            text: q.text,
            explanation: q.explanation,
        },
    ] + option_statements(q.id, q.options)
}

/// The statements of all questions, in order.
pub open spec fn questions_statements(quiz_id: u64, qs: Seq<QuestionView>) -> Seq<StatementView>
    decreases qs.len(),
{
    if qs.len() == 0 {
        Seq::empty()
    } else {
        questions_statements(quiz_id, qs.drop_last()) + question_statements(quiz_id, qs.last())
    }
}

/// For each name in turn: add the tag under the identifier reserved for it
/// unless the name exists, then link the quiz to the tag of that name.
pub open spec fn tag_statements(quiz_id: u64, names: Seq<Seq<char>>, ids: Seq<u64>) -> Seq<
    StatementView,
>
    decreases names.len(),
{
    if names.len() == 0 || ids.len() != names.len() {
        Seq::empty()
    } else {
        tag_statements(quiz_id, names.drop_last(), ids.drop_last()) + seq![
            StatementView::UpsertTag { id: ids.last(), name: names.last() },
            StatementView::LinkTag { quiz_id, name: names.last() },
        ]
    }
}

/// The plan that stores `quiz`: its row, its questions with their options,
/// its tags.
pub open spec fn creation_statements(quiz: QuizView, tag_ids: Seq<u64>) -> Seq<StatementView> {
    seq![
        StatementView::InsertQuiz {
            id: quiz.id,
            title: quiz.title,
            category_id: quiz.category_id,
        },
    ] + questions_statements(quiz.id, quiz.questions) + tag_statements(
        quiz.id,
        quiz.tags,
        tag_ids,
    )
}

/// The names asked for, if any.
pub open spec fn requested_tags(tags: Option<Vec<String>>) -> Seq<Seq<char>> {
    match tags {
        Some(t) => texts_of(t@),
        None => Seq::empty(),
    }
}

pub open spec fn option_from(o: OptionView, r: CreateOptionRequest) -> bool {
    o.text == r.text@ && o.is_correct == r.is_correct && o.description == text_of(r.description)
}

pub open spec fn question_from(q: QuestionView, r: CreateQuestionRequest) -> bool {
    &&& q.text == r.text@
    &&& q.explanation == text_of(r.explanation)
    &&& q.options.len() == r.options@.len()
    &&& forall|j: int| 0 <= j < q.options.len() ==> option_from(#[trigger] q.options[j], r.options@[j])
}

/// `quiz` holds what `req` asks for: the same title and category, a question
/// for each question asked, an option for each option asked, in the same
/// order, and each name asked for once.
pub open spec fn quiz_from(quiz: QuizView, req: CreateQuizRequest) -> bool {
    &&& quiz.title == req.title@
    &&& quiz.category_id == number_of(req.category_id)
    &&& quiz.questions.len() == req.questions@.len()
    &&& forall|i: int|
        0 <= i < quiz.questions.len() ==> question_from(
            #[trigger] quiz.questions[i],
            req.questions@[i],
        )
    &&& quiz.tags == distinct(requested_tags(req.tags))
}

/// The statements of a partial update: the title if one is given, the
/// category if one is given, and, if tags are given, the removal of all links
/// followed by the statements of the new tags.
pub open spec fn update_statements(
    quiz_id: u64,
    title: Option<Seq<char>>,
    category_id: Option<u64>,
    tags: Option<Seq<Seq<char>>>,
    tag_ids: Seq<u64>,
) -> Seq<StatementView> {
    (match title {
        Some(t) => seq![StatementView::SetTitle { quiz_id, title: t }],
        None => Seq::empty(),
    }) + (match category_id {
        Some(c) => seq![StatementView::SetCategory { quiz_id, category_id: c }],
        None => Seq::empty(),
    }) + (match tags {
        Some(names) => seq![StatementView::ClearTags { quiz_id }] + tag_statements(
            quiz_id,
            distinct(names),
            tag_ids,
        ),
        None => Seq::empty(),
    })
}

/// The content of an optional list of names.
pub open spec fn names_of(tags: Option<Vec<String>>) -> Option<Seq<Seq<char>>> {
    match tags {
        Some(t) => Some(texts_of(t@)),
        None => None,
    }
}

/// A quiz to be stored, the statements that store it, and the identifiers
/// reserved for those of its tags that turn out to be new.
#[derive(Debug, Clone, PartialEq, Eq)]
pub struct QuizPlan {
    pub quiz: Quiz,
    pub tag_ids: Vec<Id>,
    pub statements: Vec<Statement>,
}

/// The statements of an update and the identifiers reserved for new tags.
#[derive(Debug, Clone, PartialEq, Eq)]
pub struct UpdatePlan {
    pub tag_ids: Vec<Id>,
    pub statements: Vec<Statement>,
}

proof fn lemma_plan_push(v: Seq<Statement>, s: Statement)
    ensures
        plan_of(v.push(s)) == plan_of(v).push(s@),
{
    assert(plan_of(v.push(s)) =~= plan_of(v).push(s@));
}

/// Appends the inserts of the options asked for under fresh identifiers, and
/// returns the options so made.
pub fn plan_options(
    question_id: Id,
    options: &Vec<CreateOptionRequest>,
    statements: &mut Vec<Statement>,
) -> (made: Vec<QuestionOption>)
    ensures
        made@.len() == options@.len(),
        forall|j: int|
            0 <= j < made@.len() ==> option_from(#[trigger] options_of(made@)[j], options@[j]),
        plan_of(final(statements)@) == plan_of(old(statements)@) + option_statements(
            question_id.number(),
            options_of(made@),
        ),
{
    let ghost before = plan_of(statements@);
    let mut made: Vec<QuestionOption> = Vec::new();
    let mut i: usize = 0;
    assert(plan_of(statements@) =~= before + option_statements(
        question_id.number(),
        options_of(made@),
    ));
    while i < options.len()
        invariant
            i <= options.len(),
            made@.len() == i,
            forall|j: int|
                0 <= j < made@.len() ==> option_from(#[trigger] options_of(made@)[j], options@[j]),
            plan_of(statements@) == before + option_statements(
                question_id.number(),
                options_of(made@),
            ),
        decreases options.len() - i,
    {
        let o = &options[i];
        let id = Id::new();
        let option = QuestionOption {
            id,
            text: o.text.clone(),
            is_correct: o.is_correct,
            description: copy_text(&o.description),
        };
        let statement = Statement::InsertOption {
            id,
            question_id,
            text: o.text.clone(),
            is_correct: o.is_correct,
            description: copy_text(&o.description),
        };
        proof {
            lemma_plan_push(statements@, statement);
            assert(statement@ == option_statement(question_id.number(), option@));
            assert(options_of(made@.push(option)) =~= options_of(made@).push(option@));
            assert(option_statements(question_id.number(), options_of(made@).push(option@))
                =~= option_statements(question_id.number(), options_of(made@)).push(
                option_statement(question_id.number(), option@),
            ));
        }
        statements.push(statement);
        made.push(option);
        assert(plan_of(statements@) =~= before + option_statements(
            question_id.number(),
            options_of(made@),
        ));
        i += 1;
    }
    made
}

/// Appends the statements of the questions asked for under fresh
/// identifiers, and returns the questions so made.
pub fn plan_questions(
    quiz_id: Id,
    questions: &Vec<CreateQuestionRequest>,
    statements: &mut Vec<Statement>,
) -> (made: Vec<Question>)
    ensures
        made@.len() == questions@.len(),
        forall|i: int|
            0 <= i < made@.len() ==> question_from(
                #[trigger] questions_of(made@)[i],
                questions@[i],
            ),
        plan_of(final(statements)@) == plan_of(old(statements)@) + questions_statements(
            quiz_id.number(),
            questions_of(made@),
        ),
{
    let ghost before = plan_of(statements@);
    let mut made: Vec<Question> = Vec::new();
    let mut i: usize = 0;
    assert(plan_of(statements@) =~= before + questions_statements(
        quiz_id.number(),
        questions_of(made@),
    ));
    while i < questions.len()
        invariant
            i <= questions.len(),
            made@.len() == i,
            forall|k: int|
                0 <= k < made@.len() ==> question_from(
                    #[trigger] questions_of(made@)[k],
                    questions@[k],
                ),
            plan_of(statements@) == before + questions_statements(
                quiz_id.number(),
                questions_of(made@),
            ),
        decreases questions.len() - i,
    {
        let q = &questions[i];
        let id = Id::new();
        let statement = Statement::InsertQuestion {
            id,
            quiz_id,
            text: q.text.clone(),
            explanation: copy_text(&q.explanation),
        };
        let ghost so_far = plan_of(statements@);
        proof {
            lemma_plan_push(statements@, statement);
        }
        statements.push(statement);
        let options = plan_options(id, &q.options, statements);
        let question = Question {
            id,
            text: q.text.clone(),
            options,
            explanation: copy_text(&q.explanation),
        };
        proof {
            let done = questions_of(made@);
            let next = questions_of(made@.push(question));
            assert(next =~= done.push(question@));
            assert(next.drop_last() =~= done);
            assert(next.last() == question@);
            assert(question@.options == options_of(question.options@));
            assert(plan_of(statements@) =~= so_far + question_statements(
                quiz_id.number(),
                question@,
            ));
            assert(question_from(question@, *q));
        }
        made.push(question);
        assert(plan_of(statements@) =~= before + questions_statements(
            quiz_id.number(),
            questions_of(made@),
        ));
        i += 1;
    }
    made
}

/// Appends, for each name, the statements that make sure the tag exists and
/// that link the quiz to it. Returns the identifiers reserved for new tags.
pub fn plan_tags(quiz_id: Id, names: &Vec<String>, statements: &mut Vec<Statement>) -> (ids: Vec<
    Id,
>)
    ensures
        ids@.len() == names@.len(),
        plan_of(final(statements)@) == plan_of(old(statements)@) + tag_statements(
            quiz_id.number(),
            texts_of(names@),
            numbers_of(ids@),
        ),
{
    let ghost before = plan_of(statements@);
    let ghost all = texts_of(names@);
    let mut ids: Vec<Id> = Vec::new();
    let mut i: usize = 0;
    assert(all.subrange(0, 0) =~= Seq::empty());
    assert(plan_of(statements@) =~= before + tag_statements(
        quiz_id.number(),
        all.subrange(0, 0),
        numbers_of(ids@),
    ));
    while i < names.len()
        invariant
            i <= names.len(),
            ids@.len() == i,
            all == texts_of(names@),
            plan_of(statements@) == before + tag_statements(
                quiz_id.number(),
                all.subrange(0, i as int),
                numbers_of(ids@),
            ),
        decreases names.len() - i,
    {
        let id = Id::new();
        let upsert = Statement::UpsertTag { id, name: names[i].clone() };
        let link = Statement::LinkTag { quiz_id, name: names[i].clone() };
        let ghost so_far = plan_of(statements@);
        proof {
            lemma_plan_push(statements@, upsert);
            lemma_plan_push(statements@.push(upsert), link);
            let done = all.subrange(0, i as int);
            let next = all.subrange(0, i + 1);
            assert(next.drop_last() =~= done);
            assert(next.last() == names@[i as int]@);
            assert(numbers_of(ids@.push(id)).drop_last() =~= numbers_of(ids@));
            assert(numbers_of(ids@.push(id)).last() == id.number());
        }
        statements.push(upsert);
        statements.push(link);
        ids.push(id);
        assert(plan_of(statements@) =~= before + tag_statements(
            quiz_id.number(),
            all.subrange(0, i + 1),
            numbers_of(ids@),
        ));
        i += 1;
    }
    assert(all.subrange(0, i as int) =~= all);
    ids
}

} // verus!
