//! A model of what the store holds of one quiz, and of what each statement
//! does to it. The laws below say what the plans of this library leave in
//! the store.
//!
//! The model follows one quiz. Statements about other quizzes leave it as it
//! is. Every plan adds a tag before it links it, so the model keeps the names
//! linked and leaves the table of tags out. A second, smaller model holds the
//! accounts, in which no name and no email stands twice.

use crate::error::{ErrorKind, StoreFailure};
use crate::handlers::{
    delete_reply, fetch_reply, question_of_parts, register_reply, stored_id, QuestionParts,
    QuizParts,
};
use crate::models::{texts_of, OptionView, QuestionView, QuizView};
use crate::plan::{
    creation_statements, option_statement, option_statements, question_statements,
    questions_statements, tag_statements, update_statements,
};
use crate::store::{distinct, lemma_distinct, QuizRow, StatementView};
use vstd::prelude::*;

verus! {

/// What the store holds of one quiz.
pub struct Held {
    pub present: bool,
    pub title: Seq<char>,
    pub category_id: Option<u64>,
    pub questions: Seq<QuestionView>,
    pub tags: Set<Seq<char>>,
}

/// The store holds nothing of the quiz.
pub open spec fn nothing() -> Held {
    Held {
        present: false,
        title: Seq::empty(),
        category_id: None,
        questions: Seq::empty(),
        tags: Set::empty(),
    }
}

/// `questions` with `o` added to the options of the question `question_id`.
pub open spec fn with_option(questions: Seq<QuestionView>, question_id: u64, o: OptionView) -> Seq<
    QuestionView,
> {
    Seq::new(
        questions.len(),
        |i: int|
            if questions[i].id == question_id {
                QuestionView { options: questions[i].options.push(o), ..questions[i] }
            } else {
                questions[i]
            },
    )
}

/// What the store holds of the quiz `quiz` after the statement `s`.
pub open spec fn apply(h: Held, quiz: u64, s: StatementView) -> Held {
    match s {
        StatementView::InsertQuiz { id, title, category_id } => if id == quiz && !h.present {
            Held { present: true, title, category_id, questions: Seq::empty(), tags: Set::empty() }
        } else {
            h
        },
        StatementView::InsertQuestion { id, quiz_id, text, explanation } => if quiz_id == quiz
            && h.present {
            Held {
                questions: h.questions.push(
                    QuestionView { id, text, options: Seq::empty(), explanation },
                ),
                ..h
            }
        } else {
            h
        },
        StatementView::InsertOption { id, question_id, text, is_correct, description } => Held {
            questions: with_option(
                h.questions,
                question_id,
                OptionView { id, text, is_correct, description },
            ),
            ..h
        },
        StatementView::LinkTag { quiz_id, name } => if quiz_id == quiz && h.present {
            Held { tags: h.tags.insert(name), ..h }
        } else {
            h
        },
        StatementView::SetTitle { quiz_id, title } => if quiz_id == quiz && h.present {
            Held { title, ..h }
        } else {
            h
        },
        StatementView::SetCategory { quiz_id, category_id } => if quiz_id == quiz && h.present {
            Held { category_id: Some(category_id), ..h }
        } else {
            h
        },
        StatementView::ClearTags { quiz_id } => if quiz_id == quiz {
            Held { tags: Set::empty(), ..h }
        } else {
            h
        },
        StatementView::DeleteQuiz { id } => if id == quiz {
            nothing()
        } else {
            h
        },
        _ => h,
    }
}

/// What the store holds of the quiz `quiz` after the statements of `plan`, in
/// order.
pub open spec fn run(h: Held, quiz: u64, plan: Seq<StatementView>) -> Held
    decreases plan.len(),
{
    if plan.len() == 0 {
        h
    } else {
        apply(run(h, quiz, plan.drop_last()), quiz, plan.last())
    }
}

/// The rows that removing the quiz takes away from the table of quizzes.
pub open spec fn removed_rows(h: Held) -> u64 {
    if h.present {
        1
    } else {
        0
    }
}

/// Running two plans one after the other is running them joined.
pub proof fn lemma_run_joined(h: Held, quiz: u64, a: Seq<StatementView>, b: Seq<StatementView>)
    ensures
        run(h, quiz, a + b) == run(run(h, quiz, a), quiz, b),
    decreases b.len(),
{
    if b.len() == 0 {
        assert(a + b =~= a);
    } else {
        lemma_run_joined(h, quiz, a, b.drop_last());
        assert((a + b).drop_last() =~= a + b.drop_last());
        assert((a + b).last() == b.last());
    }
}

/// Running a plan of one statement is applying the statement.
pub proof fn lemma_run_one(h: Held, quiz: u64, s: StatementView)
    ensures
        run(h, quiz, seq![s]) == apply(h, quiz, s),
{
    assert(seq![s].drop_last() =~= Seq::<StatementView>::empty());
    assert(run(h, quiz, seq![s].drop_last()) == h);
}

/// Running a plan of two statements is applying one after the other.
pub proof fn lemma_run_two(h: Held, quiz: u64, s: StatementView, t: StatementView)
    ensures
        run(h, quiz, seq![s, t]) == apply(apply(h, quiz, s), quiz, t),
{
    assert(seq![s, t].drop_last() =~= seq![s]);
    lemma_run_one(h, quiz, s);
}

/// The statements of a quiz's tags link the quiz to each name, and change
/// nothing else.
pub proof fn lemma_tags_linked(h: Held, quiz: u64, names: Seq<Seq<char>>, ids: Seq<u64>)
    requires
        h.present,
        ids.len() == names.len(),
    ensures
        run(h, quiz, tag_statements(quiz, names, ids)) == (Held {
            tags: h.tags.union(names.to_set()),
            ..h
        }),
    decreases names.len(),
{
    let after = run(h, quiz, tag_statements(quiz, names, ids));
    if names.len() == 0 {
        assert(names.to_set() =~= Set::<Seq<char>>::empty());
        assert(h.tags.union(names.to_set()) =~= h.tags);
    } else {
        let head = names.drop_last();
        let upsert = StatementView::UpsertTag { id: ids.last(), name: names.last() };
        let link = StatementView::LinkTag { quiz_id: quiz, name: names.last() };
        lemma_tags_linked(h, quiz, head, ids.drop_last());
        let mid = run(h, quiz, tag_statements(quiz, head, ids.drop_last()));
        lemma_run_joined(h, quiz, tag_statements(quiz, head, ids.drop_last()), seq![upsert, link]);
        lemma_run_two(mid, quiz, upsert, link);
        assert(after.tags =~= h.tags.union(names.to_set())) by {
            assert forall|n: Seq<char>| names.to_set().contains(n) <==> (head.to_set().contains(n)
                || n == names.last()) by {
                if names.contains(n) {
                    let i = choose|i: int| 0 <= i < names.len() && names[i] == n;
                    if i < names.len() - 1 {
                        assert(head[i] == n);
                    }
                }
                if head.contains(n) {
                    let i = choose|i: int| 0 <= i < head.len() && head[i] == n;
                    assert(names[i] == n);
                }
                assert(names[names.len() - 1] == names.last());
            }
        }
    }
}

/// After an update that gives tags, the quiz has exactly the names given, be
/// its earlier tags what they may; after one that gives none, its tags are as
/// before. The title and the category change only where one is given, and the
/// questions stay.
pub proof fn law_update_replaces_tags(
    h: Held,
    quiz: u64,
    title: Option<Seq<char>>,
    category_id: Option<u64>,
    tags: Option<Seq<Seq<char>>>,
    tag_ids: Seq<u64>,
)
    requires
        h.present,
        tags matches Some(names) ==> tag_ids.len() == distinct(names).len(),
    ensures
        ({
            let after = run(h, quiz, update_statements(quiz, title, category_id, tags, tag_ids));
            &&& after.present
            &&& after.tags == match tags {
                Some(names) => names.to_set(),
                None => h.tags,
            }
            &&& after.title == match title {
                Some(t) => t,
                None => h.title,
            }
            &&& after.category_id == match category_id {
                Some(c) => Some(c),
                None => h.category_id,
            }
            &&& after.questions == h.questions
        }),
{
    let empty = Seq::<StatementView>::empty();
    let first = match title {
        Some(t) => seq![StatementView::SetTitle { quiz_id: quiz, title: t }],
        None => empty,
    };
    let second = match category_id {
        Some(c) => seq![StatementView::SetCategory { quiz_id: quiz, category_id: c }],
        None => empty,
    };
    let third = match tags {
        Some(names) => seq![StatementView::ClearTags { quiz_id: quiz }] + tag_statements(
            quiz,
            distinct(names),
            tag_ids,
        ),
        None => empty,
    };
    lemma_run_joined(h, quiz, first + second, third);
    lemma_run_joined(h, quiz, first, second);
    let h1 = run(h, quiz, first);
    if let Some(t) = title {
        lemma_run_one(h, quiz, first[0]);
    }
    let h2 = run(h1, quiz, second);
    if let Some(c) = category_id {
        lemma_run_one(h1, quiz, second[0]);
    }
    if let Some(names) = tags {
        let clear = StatementView::ClearTags { quiz_id: quiz };
        lemma_run_joined(h2, quiz, seq![clear], tag_statements(quiz, distinct(names), tag_ids));
        lemma_run_one(h2, quiz, clear);
        let h3 = apply(h2, quiz, clear);
        lemma_tags_linked(h3, quiz, distinct(names), tag_ids);
        lemma_distinct(names);
        assert(Set::<Seq<char>>::empty().union(distinct(names).to_set()) =~= names.to_set());
    }
}

/// A quiz that was removed is not held any more, whatever was held of it, and
/// removing a quiz that is not held takes no row away.
pub proof fn law_deleted_quiz_is_gone(h: Held, quiz: u64)
    ensures
        !run(h, quiz, seq![StatementView::DeleteQuiz { id: quiz }]).present,
        run(h, quiz, seq![StatementView::DeleteQuiz { id: quiz }]) == nothing(),
        !h.present ==> removed_rows(h) == 0,
        removed_rows(run(h, quiz, seq![StatementView::DeleteQuiz { id: quiz }])) == 0,
{
    lemma_run_one(h, quiz, StatementView::DeleteQuiz { id: quiz });
}

/// No question of `questions` has the identifier `id`.
pub open spec fn unused(questions: Seq<QuestionView>, id: u64) -> bool {
    forall|i: int| 0 <= i < questions.len() ==> (#[trigger] questions[i]).id != id
}

/// No two questions of `questions` share an identifier.
pub open spec fn distinct_ids(questions: Seq<QuestionView>) -> bool {
    forall|i: int, j: int|
        0 <= i < j < questions.len() ==> (#[trigger] questions[i]).id != (
        #[trigger] questions[j]).id
}

/// The inserts of options under the last question, whose identifier no other
/// question has, add the options to that question and change nothing else.
proof fn lemma_options_held(h: Held, quiz: u64, options: Seq<OptionView>)
    requires
        h.questions.len() > 0,
        unused(h.questions.drop_last(), h.questions.last().id),
    ensures
        run(h, quiz, option_statements(h.questions.last().id, options)) == (Held {
            questions: h.questions.drop_last().push(
                QuestionView {
                    options: h.questions.last().options + options,
                    ..h.questions.last()
                },
            ),
            ..h
        }),
    decreases options.len(),
{
    let q = h.questions.last();
    let plan = option_statements(q.id, options);
    if options.len() == 0 {
        assert(q.options + options =~= q.options);
        assert(h.questions.drop_last().push(q) =~= h.questions);
    } else {
        let head = options.drop_last();
        lemma_options_held(h, quiz, head);
        assert(plan.drop_last() =~= option_statements(q.id, head));
        assert(plan.last() == option_statement(q.id, options.last()));
        let mid = run(h, quiz, option_statements(q.id, head));
        let grown = QuestionView { options: q.options + head, ..q };
        let full = QuestionView { options: q.options + options, ..q };
        assert(mid.questions == h.questions.drop_last().push(grown));
        let after = apply(mid, quiz, plan.last());
        assert((q.options + head).push(options.last()) =~= q.options + options);
        assert(after.questions =~= h.questions.drop_last().push(full)) by {
            assert forall|i: int| 0 <= i < after.questions.len() implies after.questions[i]
                == h.questions.drop_last().push(full)[i] by {
                if i < h.questions.len() - 1 {
                    assert(mid.questions[i] == h.questions.drop_last()[i]);
                    assert(h.questions.drop_last()[i].id != q.id);
                }
            }
        }
    }
}

/// The statements of a question whose identifier is not in use add the
/// question with its options, and change nothing else.
proof fn lemma_question_held(h: Held, quiz: u64, q: QuestionView)
    requires
        h.present,
        unused(h.questions, q.id),
    ensures
        run(h, quiz, question_statements(quiz, q)) == (Held {
            questions: h.questions.push(q),
            ..h
        }),
{
    let insert = StatementView::InsertQuestion {
        id: q.id,
        quiz_id: quiz,
        text: q.text,
        explanation: q.explanation,
    };
    lemma_run_joined(h, quiz, seq![insert], option_statements(q.id, q.options));
    lemma_run_one(h, quiz, insert);
    let bare = QuestionView { options: Seq::empty(), ..q };
    let mid = apply(h, quiz, insert);
    assert(mid.questions == h.questions.push(bare));
    assert(mid.questions.drop_last() =~= h.questions);
    lemma_options_held(mid, quiz, q.options);
    assert(bare.options + q.options =~= q.options);
}

/// The statements of questions whose identifiers differ from each other and
/// from those in use add the questions, in order, and change nothing else.
proof fn lemma_questions_held(h: Held, quiz: u64, qs: Seq<QuestionView>)
    requires
        h.present,
        distinct_ids(h.questions + qs),
    ensures
        run(h, quiz, questions_statements(quiz, qs)) == (Held {
            questions: h.questions + qs,
            ..h
        }),
    decreases qs.len(),
{
    if qs.len() == 0 {
        assert(h.questions + qs =~= h.questions);
    } else {
        let head = qs.drop_last();
        let all = h.questions + qs;
        assert forall|i: int, j: int| 0 <= i < j < (h.questions + head).len() implies (
        #[trigger] (h.questions + head)[i]).id != (#[trigger] (h.questions + head)[j]).id by {
            assert((h.questions + head)[i] == all[i]);
            assert((h.questions + head)[j] == all[j]);
        }
        lemma_questions_held(h, quiz, head);
        let mid = run(h, quiz, questions_statements(quiz, head));
        lemma_run_joined(
            h,
            quiz,
            questions_statements(quiz, head),
            question_statements(quiz, qs.last()),
        );
        assert forall|i: int| 0 <= i < mid.questions.len() implies (
        #[trigger] mid.questions[i]).id != qs.last().id by {
            assert(mid.questions[i] == all[i]);
            assert(qs.last() == all[all.len() - 1]);
        }
        lemma_question_held(mid, quiz, qs.last());
        assert((h.questions + head).push(qs.last()) =~= h.questions + qs);
    }
}

/// After the plan that creates a quiz, the store holds the quiz as it was
/// planned: its title and category, each question once and in order with each
/// of its options once and in order, and exactly the set of its tag names.
/// This holds of every quiz whose questions have identifiers of their own.
pub proof fn law_created_quiz_is_held(quiz: QuizView, tag_ids: Seq<u64>)
    requires
        distinct_ids(quiz.questions),
        tag_ids.len() == quiz.tags.len(),
    ensures
        run(nothing(), quiz.id, creation_statements(quiz, tag_ids)) == (Held {
            present: true,
            title: quiz.title,
            category_id: quiz.category_id,
            questions: quiz.questions,
            tags: quiz.tags.to_set(),
        }),
{
    let insert = StatementView::InsertQuiz {
        id: quiz.id,
        title: quiz.title,
        category_id: quiz.category_id,
    };
    let questions = questions_statements(quiz.id, quiz.questions);
    let tags = tag_statements(quiz.id, quiz.tags, tag_ids);
    lemma_run_joined(nothing(), quiz.id, seq![insert] + questions, tags);
    lemma_run_joined(nothing(), quiz.id, seq![insert], questions);
    lemma_run_one(nothing(), quiz.id, insert);
    let h1 = apply(nothing(), quiz.id, insert);
    assert(h1.questions + quiz.questions =~= quiz.questions);
    lemma_questions_held(h1, quiz.id, quiz.questions);
    let h2 = run(h1, quiz.id, questions);
    lemma_tags_linked(h2, quiz.id, quiz.tags, tag_ids);
    assert(Set::<Seq<char>>::empty().union(quiz.tags.to_set()) =~= quiz.tags.to_set());
}

/// A quiz made from a request names each tag asked for exactly once: as many
/// tags are held as there are different names in the request, however often
/// a name is repeated.
pub proof fn law_tags_held_once(requested: Seq<Seq<char>>)
    ensures
        distinct(requested).no_duplicates(),
        distinct(requested).to_set() == requested.to_set(),
        distinct(requested).to_set().len() == distinct(requested).len(),
{
    lemma_distinct(requested);
    assert(distinct(requested).to_set() =~= requested.to_set());
    distinct(requested).unique_seq_to_set();
}

/// The rows are what a read of the quiz `id` finds when the store holds `h`
/// of it: no quiz row if the quiz is not held; otherwise its row, its
/// questions with their options in order, and its tag names in some order.
pub open spec fn reads(h: Held, id: u64, found: Option<QuizRow>, parts: QuizParts) -> bool {
    match found {
        None => !h.present,
        Some(row) => {
            &&& h.present
            &&& row.id as u64 == id
            &&& row.title@ == h.title
            &&& stored_id(row.category_id) == h.category_id
            &&& parts.questions@.map_values(|p: QuestionParts| question_of_parts(p))
                == h.questions
            &&& texts_of(parts.tags@).to_set() == h.tags
        },
    }
}

/// A quiz that is fetched after it was created comes back as it was planned:
/// the same title and category, exactly its questions, each with exactly its
/// options, and exactly its tag names, none of them twice.
pub proof fn law_fetch_after_create(
    quiz: QuizView,
    tag_ids: Seq<u64>,
    found: Option<QuizRow>,
    parts: QuizParts,
)
    requires
        distinct_ids(quiz.questions),
        quiz.tags.no_duplicates(),
        tag_ids.len() == quiz.tags.len(),
        reads(
            run(nothing(), quiz.id, creation_statements(quiz, tag_ids)),
            quiz.id,
            found,
            parts,
        ),
    ensures
        fetch_reply(Ok(found), Ok(parts)) matches Ok(v) && v.id == quiz.id && v.title == quiz.title
            && v.category_id == quiz.category_id && v.questions == quiz.questions
            && v.tags.no_duplicates() && v.tags.to_set() == quiz.tags.to_set() && v.tags.len()
            == quiz.tags.len(),
{
    law_created_quiz_is_held(quiz, tag_ids);
    let names = texts_of(parts.tags@);
    lemma_distinct(names);
    assert(distinct(names).to_set() =~= names.to_set());
    distinct(names).unique_seq_to_set();
    quiz.tags.unique_seq_to_set();
}

/// A quiz that is fetched after an update that gave tags has exactly the
/// names given, whatever its tags were before.
pub proof fn law_fetch_after_update(
    h: Held,
    quiz: u64,
    title: Option<Seq<char>>,
    category_id: Option<u64>,
    names: Seq<Seq<char>>,
    tag_ids: Seq<u64>,
    found: Option<QuizRow>,
    parts: QuizParts,
)
    requires
        h.present,
        tag_ids.len() == distinct(names).len(),
        reads(
            run(h, quiz, update_statements(quiz, title, category_id, Some(names), tag_ids)),
            quiz,
            found,
            parts,
        ),
    ensures
        fetch_reply(Ok(found), Ok(parts)) matches Ok(v) && v.tags.to_set() == names.to_set()
            && v.tags.no_duplicates() && v.questions == h.questions,
{
    law_update_replaces_tags(h, quiz, title, category_id, Some(names), tag_ids);
    let read = texts_of(parts.tags@);
    lemma_distinct(read);
    assert(distinct(read).to_set() =~= read.to_set());
}

/// A quiz that was removed is not found when it is fetched, and removing it
/// once more, or removing a quiz that was never there, is `NotFound` too.
pub proof fn law_fetch_after_delete(h: Held, quiz: u64, found: Option<QuizRow>, parts: QuizParts)
    requires
        reads(run(h, quiz, seq![StatementView::DeleteQuiz { id: quiz }]), quiz, found, parts),
    ensures
        fetch_reply(Ok(found), Ok(parts)) == Err::<QuizView, (ErrorKind, Seq<char>)>(
            (ErrorKind::NotFound, "Quiz not found"@),
        ),
        delete_reply(
            Ok(removed_rows(run(h, quiz, seq![StatementView::DeleteQuiz { id: quiz }]))),
        ) == Err::<(), (ErrorKind, Seq<char>)>((ErrorKind::NotFound, "Quiz not found"@)),
        !h.present ==> delete_reply(Ok(removed_rows(h))) == Err::<(), (ErrorKind, Seq<char>)>(
            (ErrorKind::NotFound, "Quiz not found"@),
        ),
        h.present ==> delete_reply(Ok(removed_rows(h))) is Ok,
{
    law_deleted_quiz_is_gone(h, quiz);
}

/// The accounts that the store holds: the identifier of each developer by
/// name and of each end user by email. No name and no email stands twice.
pub struct Accounts {
    pub developers: Map<Seq<char>, u64>,
    pub end_users: Map<Seq<char>, u64>,
}

/// Whether the store takes the statement. It refuses a developer whose name
/// is taken; an end user whose email is known is passed over, not refused.
pub open spec fn takes(a: Accounts, s: StatementView) -> Result<(), StoreFailure> {
    match s {
        StatementView::InsertDeveloper { id, username, password_hash } => if a.developers.dom().contains(
            username,
        ) {
            Err(StoreFailure)
        } else {
            Ok(())
        },
        _ => Ok(()),
    }
}

/// The accounts after the statement.
pub open spec fn enrol(a: Accounts, s: StatementView) -> Accounts {
    match s {
        StatementView::InsertDeveloper { id, username, password_hash } => if a.developers.dom().contains(
            username,
        ) {
            a
        } else {
            Accounts { developers: a.developers.insert(username, id), ..a }
        },
        StatementView::InsertEndUser { id, email } => if a.end_users.dom().contains(email) {
            a
        } else {
            Accounts { end_users: a.end_users.insert(email, id), ..a }
        },
        _ => a,
    }
}

/// Of two registrations under one name that is free, the first succeeds and
/// the second fails with a status that is not 200; the account stays that of
/// the first.
pub proof fn law_second_registration_fails(
    a: Accounts,
    username: Seq<char>,
    first: StatementView,
    second: StatementView,
)
    requires
        !a.developers.dom().contains(username),
        first matches StatementView::InsertDeveloper { username: name, .. } && name == username,
        second matches StatementView::InsertDeveloper { username: name, .. } && name == username,
    ensures
        register_reply(takes(a, first)) is Ok,
        register_reply(takes(enrol(a, first), second)) matches Err(f) && f.0.status() != 200,
        enrol(enrol(a, first), second) == enrol(a, first),
{
}

/// Registering an end user under an email that is known changes nothing: the
/// email keeps the identifier it had, so the reply names the earlier user.
pub proof fn law_end_user_registration_is_idempotent(
    a: Accounts,
    email: Seq<char>,
    first: u64,
    second: u64,
)
    ensures
        ({
            let once = enrol(a, StatementView::InsertEndUser { id: first, email });
            let twice = enrol(once, StatementView::InsertEndUser { id: second, email });
            &&& once.end_users.dom().contains(email)
            &&& twice == once
            &&& !a.end_users.dom().contains(email) ==> twice.end_users[email] == first
            &&& a.end_users.dom().contains(email) ==> twice.end_users[email] == a.end_users[email]
        }),
{
}

} // verus!
