use coding_quiz_api::error::{ErrorKind, StoreFailure};
use coding_quiz_api::handlers::{
    assemble_quiz, create_category, create_category_outcome, create_quiz, delete_outcome,
    delete_quiz, get_quiz, health_check, update_precondition, update_quiz, write_failure,
    FetchStep, QuestionParts, QuizParts,
};
use coding_quiz_api::id::Id;
use coding_quiz_api::models::{
    CreateCategoryRequest, CreateOptionRequest, CreateQuestionRequest, CreateQuizRequest,
    UpdateQuizRequest,
};
use coding_quiz_api::store::{distinct_names, holds_name, OptionRow, QuestionRow, QuizRow, Statement};
use std::collections::BTreeSet;

fn names(v: &[&str]) -> Vec<String> {
    v.iter().map(|s| s.to_string()).collect()
}

fn option(text: &str, is_correct: bool) -> CreateOptionRequest {
    CreateOptionRequest { text: text.to_string(), is_correct, description: None }
}

fn rust_quiz() -> CreateQuizRequest {
    CreateQuizRequest {
        title: "Integration Test Quiz".to_string(),
        category_id: Some(Id::from_u64(99)),
        questions: vec![
            CreateQuestionRequest {
                text: "What is Rust?".to_string(),
                options: vec![option("A game", false), option("A language", true)],
                explanation: Some("A systems programming language".to_string()),
            },
            CreateQuestionRequest {
                text: "Which are programming languages?".to_string(),
                options: vec![
                    option("Rust", true),
                    option("Python", true),
                    CreateOptionRequest {
                        text: "HTML".to_string(),
                        is_correct: false,
                        description: Some("A markup language".to_string()),
                    },
                ],
                explanation: None,
            },
        ],
        tags: Some(names(&["test_tag"])),
    }
}

/// The tag names linked to `quiz` after `statements`, starting from `tags`.
fn tags_after(mut tags: BTreeSet<String>, quiz: Id, statements: &[Statement]) -> BTreeSet<String> {
    for s in statements {
        match s {
            Statement::ClearTags { quiz_id } if *quiz_id == quiz => tags.clear(),
            Statement::LinkTag { quiz_id, name } if *quiz_id == quiz => {
                tags.insert(name.clone());
            }
            Statement::DeleteQuiz { id } if *id == quiz => tags.clear(),
            _ => {}
        }
    }
    tags
}

#[test]
fn health_check_works() {
    assert_eq!(health_check(), "OK");
}

#[test]
fn quizzes_quiz_crud_works() {
    let req = rust_quiz();
    let plan = create_quiz(&req);
    let quiz = &plan.quiz;
    assert_eq!(quiz.title, "Integration Test Quiz");
    assert_eq!(quiz.category_id, Some(Id::from_u64(99)));
    assert_eq!(quiz.tags, names(&["test_tag"]));
    assert_eq!(quiz.questions.len(), 2);
    assert_eq!(quiz.questions[0].text, "What is Rust?");
    assert_eq!(quiz.questions[0].explanation.as_deref(), Some("A systems programming language"));
    assert_eq!(quiz.questions[0].options.len(), 2);
    assert_eq!(quiz.questions[0].options[0].text, "A game");
    assert!(!quiz.questions[0].options[0].is_correct);
    assert_eq!(quiz.questions[0].options[1].text, "A language");
    assert!(quiz.questions[0].options[1].is_correct);
    assert_eq!(quiz.questions[1].options.len(), 3);
    assert_eq!(quiz.questions[1].options[2].description.as_deref(), Some("A markup language"));
    assert_eq!(quiz.questions[1].explanation, None);

    let q0 = &quiz.questions[0];
    let q1 = &quiz.questions[1];
    let expected = vec![
        Statement::InsertQuiz {
            id: quiz.id,
            title: "Integration Test Quiz".to_string(),
            category_id: Some(Id::from_u64(99)),
        },
        Statement::InsertQuestion {
            id: q0.id,
            quiz_id: quiz.id,
            text: "What is Rust?".to_string(),
            explanation: Some("A systems programming language".to_string()),
        },
        Statement::InsertOption {
            id: q0.options[0].id,
            question_id: q0.id,
            text: "A game".to_string(),
            is_correct: false,
            description: None,
        },
        Statement::InsertOption {
            id: q0.options[1].id,
            question_id: q0.id,
            text: "A language".to_string(),
            is_correct: true,
            description: None,
        },
        Statement::InsertQuestion {
            id: q1.id,
            quiz_id: quiz.id,
            text: "Which are programming languages?".to_string(),
            explanation: None,
        },
        Statement::InsertOption {
            id: q1.options[0].id,
            question_id: q1.id,
            text: "Rust".to_string(),
            is_correct: true,
            description: None,
        },
        Statement::InsertOption {
            id: q1.options[1].id,
            question_id: q1.id,
            text: "Python".to_string(),
            is_correct: true,
            description: None,
        },
        Statement::InsertOption {
            id: q1.options[2].id,
            question_id: q1.id,
            text: "HTML".to_string(),
            is_correct: false,
            description: Some("A markup language".to_string()),
        },
        Statement::UpsertTag { id: plan.tag_ids[0], name: "test_tag".to_string() },
        Statement::LinkTag { quiz_id: quiz.id, name: "test_tag".to_string() },
    ];
    assert_eq!(plan.statements, expected);

    let update = update_quiz(
        quiz.id,
        &UpdateQuizRequest {
            title: Some("Updated Quiz Title".to_string()),
            category_id: None,
            tags: Some(names(&["updated_tag"])),
        },
    );
    assert_eq!(
        update.statements,
        vec![
            Statement::SetTitle { quiz_id: quiz.id, title: "Updated Quiz Title".to_string() },
            Statement::ClearTags { quiz_id: quiz.id },
            Statement::UpsertTag { id: update.tag_ids[0], name: "updated_tag".to_string() },
            Statement::LinkTag { quiz_id: quiz.id, name: "updated_tag".to_string() },
        ]
    );

    assert_eq!(delete_quiz(quiz.id), Statement::DeleteQuiz { id: quiz.id });
    assert_eq!(delete_outcome(Ok(1)), Ok(()));
    let gone = get_quiz(&Ok(None), &Ok(QuizParts { questions: vec![], tags: vec![] })).unwrap_err();
    assert_eq!(gone.status_code(), 404);
}

#[test]
fn created_entities_have_identifiers_of_their_own() {
    let plan = create_quiz(&rust_quiz());
    let mut ids = vec![plan.quiz.id];
    for q in &plan.quiz.questions {
        ids.push(q.id);
        for o in &q.options {
            ids.push(o.id);
        }
    }
    ids.extend(plan.tag_ids.iter().copied());
    let distinct: BTreeSet<u64> = ids.iter().map(|i| i.to_u64()).collect();
    assert_eq!(distinct.len(), ids.len());
    assert_eq!(ids.len(), 1 + 2 + 5 + 1);
}

#[test]
fn create_quiz_with_empty_questions_succeeds() {
    let req = CreateQuizRequest {
        title: "Empty Quiz".to_string(),
        category_id: None,
        questions: vec![],
        tags: Some(vec![]),
    };
    let plan = create_quiz(&req);
    assert!(plan.quiz.questions.is_empty());
    assert!(plan.quiz.tags.is_empty());
    assert_eq!(
        plan.statements,
        vec![Statement::InsertQuiz {
            id: plan.quiz.id,
            title: "Empty Quiz".to_string(),
            category_id: None
        }]
    );
}

#[test]
fn create_quiz_without_tags_has_none() {
    let req = CreateQuizRequest {
        title: "Untagged".to_string(),
        category_id: None,
        questions: vec![],
        tags: None,
    };
    let plan = create_quiz(&req);
    assert!(plan.quiz.tags.is_empty());
    assert!(plan.tag_ids.is_empty());
    assert_eq!(plan.statements.len(), 1);
}

#[test]
fn create_quiz_with_special_characters_in_title() {
    let title = "Quiz with \u{e9}mojis \u{1f680} and symbols: @#$%^&*()";
    let req = CreateQuizRequest {
        title: title.to_string(),
        category_id: None,
        questions: vec![],
        tags: Some(vec![]),
    };
    assert_eq!(create_quiz(&req).quiz.title, title);
}

#[test]
fn create_quiz_with_very_long_title() {
    let title = "a".repeat(1000);
    let req = CreateQuizRequest {
        title: title.clone(),
        category_id: None,
        questions: vec![],
        tags: Some(vec![]),
    };
    assert_eq!(create_quiz(&req).quiz.title, title);
}

#[test]
fn create_question_with_multiple_correct_answers() {
    let plan = create_quiz(&rust_quiz());
    let flags: Vec<bool> = plan.quiz.questions[1].options.iter().map(|o| o.is_correct).collect();
    assert_eq!(flags, vec![true, true, false]);
}

#[test]
fn create_question_with_no_correct_answer() {
    let req = CreateQuizRequest {
        title: "No Correct Answer Quiz".to_string(),
        category_id: None,
        questions: vec![CreateQuestionRequest {
            text: "Impossible question?".to_string(),
            options: vec![option("Wrong 1", false), option("Wrong 2", false)],
            explanation: Some("No correct answer".to_string()),
        }],
        tags: Some(vec![]),
    };
    let plan = create_quiz(&req);
    assert!(plan.quiz.questions[0].options.iter().all(|o| !o.is_correct));
    assert_eq!(plan.statements.len(), 4);
}

#[test]
fn quiz_with_duplicate_tags_deduplicates() {
    let req = CreateQuizRequest {
        title: "Duplicate Tags Quiz".to_string(),
        category_id: None,
        questions: vec![],
        tags: Some(names(&["rust", "rust", "programming", "rust"])),
    };
    let plan = create_quiz(&req);
    assert_eq!(plan.quiz.tags, names(&["rust", "programming"]));
    let rust_count = plan.quiz.tags.iter().filter(|t| t.as_str() == "rust").count();
    assert_eq!(rust_count, 1);
    assert_eq!(plan.tag_ids.len(), 2);
    assert_eq!(
        plan.statements[1..],
        [
            Statement::UpsertTag { id: plan.tag_ids[0], name: "rust".to_string() },
            Statement::LinkTag { quiz_id: plan.quiz.id, name: "rust".to_string() },
            Statement::UpsertTag { id: plan.tag_ids[1], name: "programming".to_string() },
            Statement::LinkTag { quiz_id: plan.quiz.id, name: "programming".to_string() },
        ]
    );
    let held = tags_after(BTreeSet::new(), plan.quiz.id, &plan.statements);
    assert_eq!(held, names(&["programming", "rust"]).into_iter().collect());
}

#[test]
fn distinct_names_keeps_first_places() {
    assert_eq!(distinct_names(&names(&["b", "a", "b", "c", "a"])), names(&["b", "a", "c"]));
    assert_eq!(distinct_names(&names(&[])), names(&[]));
    assert_eq!(distinct_names(&names(&["Rust", "rust"])), names(&["Rust", "rust"]));
    assert!(holds_name(&names(&["a", "b"]), &"b".to_string()));
    assert!(!holds_name(&names(&["a", "b"]), &"c".to_string()));
}

#[test]
fn update_quiz_tags_replaces_old_tags() {
    let req = CreateQuizRequest {
        title: "Tag Update Quiz".to_string(),
        category_id: None,
        questions: vec![],
        tags: Some(names(&["old_tag1", "old_tag2"])),
    };
    let created = create_quiz(&req);
    let id = created.quiz.id;
    let before = tags_after(BTreeSet::new(), id, &created.statements);
    assert_eq!(before, names(&["old_tag1", "old_tag2"]).into_iter().collect());

    let update = update_quiz(
        id,
        &UpdateQuizRequest {
            title: None,
            category_id: None,
            tags: Some(names(&["new_tag1", "new_tag2"])),
        },
    );
    let after = tags_after(before, id, &update.statements);
    assert_eq!(after.len(), 2);
    assert!(after.contains("new_tag1"));
    assert!(after.contains("new_tag2"));
    assert!(!after.contains("old_tag1"));
    assert!(!after.contains("old_tag2"));
    assert_eq!(update.statements[0], Statement::ClearTags { quiz_id: id });
}

#[test]
fn update_writes_only_what_is_given() {
    let id = Id::from_u64(12);
    let none = update_quiz(id, &UpdateQuizRequest { title: None, category_id: None, tags: None });
    assert!(none.statements.is_empty());
    assert!(none.tag_ids.is_empty());

    let category = update_quiz(
        id,
        &UpdateQuizRequest { title: None, category_id: Some(Id::from_u64(4)), tags: None },
    );
    assert_eq!(
        category.statements,
        vec![Statement::SetCategory { quiz_id: id, category_id: Id::from_u64(4) }]
    );

    let cleared =
        update_quiz(id, &UpdateQuizRequest { title: None, category_id: None, tags: Some(vec![]) });
    assert_eq!(cleared.statements, vec![Statement::ClearTags { quiz_id: id }]);

    let all = update_quiz(
        id,
        &UpdateQuizRequest {
            title: Some("New Title".to_string()),
            category_id: Some(Id::from_u64(4)),
            tags: Some(names(&["x", "x"])),
        },
    );
    assert_eq!(
        all.statements,
        vec![
            Statement::SetTitle { quiz_id: id, title: "New Title".to_string() },
            Statement::SetCategory { quiz_id: id, category_id: Id::from_u64(4) },
            Statement::ClearTags { quiz_id: id },
            Statement::UpsertTag { id: all.tag_ids[0], name: "x".to_string() },
            Statement::LinkTag { quiz_id: id, name: "x".to_string() },
        ]
    );
}

#[test]
fn quizzes_update_non_existent_quiz_fails() {
    let e = update_precondition(Ok(false)).unwrap_err();
    assert_eq!((e.kind, e.message.as_str(), e.status_code()), (ErrorKind::NotFound, "Quiz not found", 404));
    assert_eq!(update_precondition(Ok(true)), Ok(()));
    let e = update_precondition(Err(StoreFailure)).unwrap_err();
    assert_eq!((e.kind, e.message.as_str(), e.status_code()), (ErrorKind::Store, "Database error checking quiz", 500));
}

#[test]
fn quizzes_delete_non_existent_quiz_fails() {
    let e = delete_outcome(Ok(0)).unwrap_err();
    assert_eq!((e.kind, e.message.as_str(), e.status_code()), (ErrorKind::NotFound, "Quiz not found", 404));
    let e = delete_outcome(Err(StoreFailure)).unwrap_err();
    assert_eq!((e.kind, e.message.as_str(), e.status_code()), (ErrorKind::Store, "Database error", 500));
    assert_eq!(delete_outcome(Ok(3)), Ok(()));
}

#[test]
fn quizzes_get_non_existent_quiz_fails() {
    let parts = Ok(QuizParts { questions: vec![], tags: vec![] });
    let e = get_quiz(&Ok(None), &parts).unwrap_err();
    assert_eq!((e.kind, e.message.as_str(), e.status_code()), (ErrorKind::NotFound, "Quiz not found", 404));
    let e = get_quiz(&Ok(None), &Err(FetchStep::Tags)).unwrap_err();
    assert_eq!(e.kind, ErrorKind::NotFound);
}

fn stored_row() -> QuizRow {
    QuizRow { id: 5, title: "Stored".to_string(), category_id: Some(-2) }
}

fn stored_parts() -> QuizParts {
    QuizParts {
        questions: vec![
            QuestionParts {
                row: QuestionRow { id: 6, text: "Q1".to_string(), explanation: Some("Exp".to_string()) },
                options: vec![
                    OptionRow { id: 8, text: "Correct".to_string(), is_correct: true, description: None },
                    OptionRow {
                        id: 9,
                        text: "Wrong".to_string(),
                        is_correct: false,
                        description: Some("why".to_string()),
                    },
                ],
            },
            QuestionParts {
                row: QuestionRow { id: 7, text: "Q2".to_string(), explanation: None },
                options: vec![],
            },
        ],
        tags: names(&["b", "a", "b"]),
    }
}

#[test]
fn fetched_quiz_is_assembled_from_its_rows() {
    let quiz = get_quiz(&Ok(Some(stored_row())), &Ok(stored_parts())).unwrap();
    assert_eq!(quiz, assemble_quiz(&stored_row(), &stored_parts()));
    assert_eq!(quiz.id, Id::from_u64(5));
    assert_eq!(quiz.title, "Stored");
    assert_eq!(quiz.category_id, Some(Id::from_i64(-2)));
    assert_eq!(quiz.tags, names(&["b", "a"]));
    assert_eq!(quiz.questions.len(), 2);
    assert_eq!(quiz.questions[0].id, Id::from_u64(6));
    assert_eq!(quiz.questions[0].text, "Q1");
    assert_eq!(quiz.questions[0].explanation.as_deref(), Some("Exp"));
    assert_eq!(quiz.questions[0].options.len(), 2);
    assert_eq!(quiz.questions[0].options[0].id, Id::from_u64(8));
    assert!(quiz.questions[0].options[0].is_correct);
    assert_eq!(quiz.questions[0].options[1].text, "Wrong");
    assert_eq!(quiz.questions[0].options[1].description.as_deref(), Some("why"));
    assert_eq!(quiz.questions[1].id, Id::from_u64(7));
    assert!(quiz.questions[1].options.is_empty());
}

#[test]
fn failed_read_after_the_quiz_row_is_a_server_error() {
    let found = Ok(Some(stored_row()));
    for (step, text) in [
        (FetchStep::Questions, "Database error fetching questions"),
        (FetchStep::Options, "Database error fetching options"),
        (FetchStep::Tags, "Database error fetching tags"),
    ] {
        let e = get_quiz(&found, &Err(step)).unwrap_err();
        assert_eq!((e.kind, e.message.as_str(), e.status_code()), (ErrorKind::Store, text, 500));
        assert_eq!(step.failure(), e);
    }
    let e = get_quiz(&Err(StoreFailure), &Ok(stored_parts())).unwrap_err();
    assert_eq!((e.kind, e.message.as_str()), (ErrorKind::Store, "Database error fetching quiz"));
}

#[test]
fn create_duplicate_category_fails() {
    let req = CreateCategoryRequest { name: "Duplicate Test".to_string() };
    let (category, statement) = create_category(&req);
    assert_eq!(category.name, "Duplicate Test");
    assert_eq!(
        statement,
        Statement::InsertCategory { id: category.id, name: "Duplicate Test".to_string() }
    );
    assert_eq!(create_category_outcome(Ok(())), Ok(()));
    let e = create_category_outcome(Err(StoreFailure)).unwrap_err();
    assert_ne!(e.status_code(), 201);
    assert_eq!((e.kind, e.message.as_str(), e.status_code()), (ErrorKind::Store, "Failed to create category", 500));
}

#[test]
fn refused_write_names_its_kind_only() {
    let plan = create_quiz(&rust_quiz());
    let texts: Vec<String> = plan.statements.iter().map(|s| write_failure(s).message).collect();
    assert_eq!(
        texts,
        vec![
            "Failed to insert quiz",
            "Failed to insert question",
            "Failed to insert option",
            "Failed to insert option",
            "Failed to insert question",
            "Failed to insert option",
            "Failed to insert option",
            "Failed to insert option",
            "Failed to upsert tag",
            "Failed to link tag",
        ]
    );
    assert!(plan.statements.iter().all(|s| write_failure(s).status_code() == 500));
    let id = Id::from_u64(1);
    assert_eq!(
        write_failure(&Statement::SetTitle { quiz_id: id, title: String::new() }).message,
        "Error updating title"
    );
    assert_eq!(
        write_failure(&Statement::SetCategory { quiz_id: id, category_id: id }).message,
        "Error updating category"
    );
    assert_eq!(write_failure(&Statement::ClearTags { quiz_id: id }).message, "Error clearing tags");
    assert_eq!(write_failure(&Statement::DeleteQuiz { id }).message, "Database error");
}

/// The rows that a read of `quiz` finds in a store that ran `statements`.
fn rows_after(statements: &[Statement], quiz: Id) -> (Option<QuizRow>, QuizParts) {
    let mut row: Option<QuizRow> = None;
    let mut parts = QuizParts { questions: vec![], tags: vec![] };
    for s in statements {
        match s {
            Statement::InsertQuiz { id, title, category_id } if *id == quiz => {
                row = Some(QuizRow {
                    id: id.to_i64(),
                    title: title.clone(),
                    category_id: category_id.map(|c| c.to_i64()),
                });
            }
            Statement::InsertQuestion { id, quiz_id, text, explanation } if *quiz_id == quiz => {
                parts.questions.push(QuestionParts {
                    row: QuestionRow {
                        id: id.to_i64(),
                        text: text.clone(),
                        explanation: explanation.clone(),
                    },
                    options: vec![],
                });
            }
            Statement::InsertOption { id, question_id, text, is_correct, description } => {
                for q in parts.questions.iter_mut().filter(|q| q.row.id == question_id.to_i64()) {
                    q.options.push(OptionRow {
                        id: id.to_i64(),
                        text: text.clone(),
                        is_correct: *is_correct,
                        description: description.clone(),
                    });
                }
            }
            Statement::LinkTag { quiz_id, name } if *quiz_id == quiz => {
                if !parts.tags.contains(name) {
                    parts.tags.push(name.clone());
                }
            }
            Statement::SetTitle { quiz_id, title } if *quiz_id == quiz => {
                if let Some(r) = row.as_mut() {
                    r.title = title.clone();
                }
            }
            Statement::SetCategory { quiz_id, category_id } if *quiz_id == quiz => {
                if let Some(r) = row.as_mut() {
                    r.category_id = Some(category_id.to_i64());
                }
            }
            Statement::ClearTags { quiz_id } if *quiz_id == quiz => parts.tags.clear(),
            Statement::DeleteQuiz { id } if *id == quiz => {
                row = None;
                parts = QuizParts { questions: vec![], tags: vec![] };
            }
            _ => {}
        }
    }
    (row, parts)
}

#[test]
fn created_quiz_is_fetched_as_it_was_planned() {
    let mut req = rust_quiz();
    req.tags = Some(names(&["rust", "rust", "programming", "rust"]));
    let plan = create_quiz(&req);
    let (row, parts) = rows_after(&plan.statements, plan.quiz.id);
    let fetched = get_quiz(&Ok(row), &Ok(parts)).unwrap();
    assert_eq!(fetched, plan.quiz);
    assert_eq!(fetched.questions.len(), 2);
    assert_eq!(fetched.questions[0].options.len(), 2);
    assert_eq!(fetched.questions[1].options.len(), 3);
    assert_eq!(fetched.tags.len(), 2);
}

#[test]
fn updated_quiz_is_fetched_with_the_new_tags_only() {
    let mut req = rust_quiz();
    req.tags = Some(names(&["old_tag1", "old_tag2"]));
    let created = create_quiz(&req);
    let id = created.quiz.id;
    let update = update_quiz(
        id,
        &UpdateQuizRequest {
            title: Some("Updated Quiz Title".to_string()),
            category_id: None,
            tags: Some(names(&["new_tag1", "new_tag2"])),
        },
    );
    let mut all = created.statements.clone();
    all.extend(update.statements.iter().cloned());
    let (row, parts) = rows_after(&all, id);
    let fetched = get_quiz(&Ok(row), &Ok(parts)).unwrap();
    assert_eq!(fetched.tags, names(&["new_tag1", "new_tag2"]));
    assert_eq!(fetched.title, "Updated Quiz Title");
    assert_eq!(fetched.category_id, created.quiz.category_id);
    assert_eq!(fetched.questions, created.quiz.questions);
}

#[test]
fn deleted_quiz_is_not_found() {
    let created = create_quiz(&rust_quiz());
    let id = created.quiz.id;
    let mut all = created.statements.clone();
    all.push(delete_quiz(id));
    let (row, parts) = rows_after(&all, id);
    assert_eq!(row, None);
    let e = get_quiz(&Ok(row), &Ok(parts)).unwrap_err();
    assert_eq!((e.kind, e.status_code()), (ErrorKind::NotFound, 404));
    let e = delete_outcome(Ok(0)).unwrap_err();
    assert_eq!((e.kind, e.status_code()), (ErrorKind::NotFound, 404));
}
