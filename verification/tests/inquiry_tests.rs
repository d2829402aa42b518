use activity_inquirer::database::{Database, Row, StoreError};
use activity_inquirer::inquiry::{plan_question, InquiryApp, PlannerState, Question};
use activity_inquirer::models::{Activity, Day, Timestamp, MAX_LOCAL_SECS};

// 2024-03-05T09:30:00Z
const MORNING: i64 = 1_709_631_000;

fn at(secs: i64) -> Timestamp {
    Timestamp { secs, nanos: 0, offset: 0 }
}

fn today() -> Day {
    Day { year: 2024, month: 3, day: 5 }
}

fn log_with(descriptions: &[&str]) -> Database {
    let mut db = Database::new();
    for (k, description) in descriptions.iter().enumerate() {
        db.add_activity_at(description.to_string(), at(MORNING + 60 * k as i64)).unwrap();
    }
    db
}

fn record(description: &str) -> Activity {
    Activity {
        id: Some(1),
        description: description.to_string(),
        timestamp: at(MORNING),
        date: today(),
    }
}

#[test]
fn the_plan_for_a_day_without_records_is_the_open_question() {
    assert!(matches!(plan_question(0, None), Question::First));
    assert!(matches!(plan_question(0, Some(record("stale"))), Question::First));
}

#[test]
fn the_plan_for_a_day_with_records_restates_the_latest() {
    match plan_question(3, Some(record("writing code"))) {
        Question::Continuation(last) => assert_eq!(last.description, "writing code"),
        Question::First => panic!("the continuation question was expected"),
    }
}

#[test]
fn the_plan_falls_back_to_the_open_question_when_no_latest_is_found() {
    assert!(matches!(plan_question(2, None), Question::First));
}

#[test]
fn an_empty_day_starts_with_the_open_question() {
    let app = InquiryApp::new_on(Database::new(), today());
    assert_eq!(app.state(), PlannerState::FirstQuestion);
    assert!(app.is_first_question());
    assert_eq!(app.question_text(), "O que você está fazendo agora?");
    assert!(app.last_activity().is_none());
    assert!(app.message().is_none());
    assert!(!app.should_close());
    assert!(!app.close_requested());
    assert_eq!(app.current_input(), "");
}

#[test]
fn records_of_other_days_do_not_count() {
    let db = log_with(&["yesterday's work"]);
    let app = InquiryApp::new_on(db, Day { year: 2024, month: 3, day: 6 });
    assert_eq!(app.state(), PlannerState::FirstQuestion);
    assert_eq!(app.question_text(), "O que você está fazendo agora?");
}

#[test]
fn one_answer_adds_one_record_that_is_the_latest() {
    let mut app = InquiryApp::new_on(Database::new(), today());
    let before = app.db().count_for_day(today());
    app.set_input("reading a book".to_string());
    app.save_activity_at(at(MORNING)).unwrap();
    assert_eq!(app.state(), PlannerState::Done);
    assert!(app.should_close());
    assert_eq!(app.db().count_for_day(today()), before + 1);
    let last = app.db().last_for_day(today()).unwrap();
    assert_eq!(last.description, "reading a book");
    assert_eq!(app.message().as_deref(), Some("Atividade salva com sucesso!"));
    assert_eq!(app.current_input(), "");
}

#[test]
fn the_answer_is_recorded_without_the_white_space_at_its_ends() {
    let mut app = InquiryApp::new_on(Database::new(), today());
    app.set_input(" \t reading  a book \n".to_string());
    app.save_activity_at(at(MORNING)).unwrap();
    let last = app.db().last_for_day(today()).unwrap();
    assert_eq!(last.description, "reading  a book");
}

#[test]
fn an_answer_without_words_is_asked_for_again() {
    for input in ["", "   ", "\t\n", "\u{a0}\u{2003}"] {
        let mut app = InquiryApp::new_on(Database::new(), today());
        app.set_input(input.to_string());
        app.save_activity_at(at(MORNING)).unwrap();
        assert_eq!(app.state(), PlannerState::FirstQuestion);
        assert_eq!(app.db().len(), 0);
        assert_eq!(app.message().as_deref(), Some("Por favor, digite uma atividade."));
        assert_eq!(app.current_input(), input);
        assert!(!app.should_close());
    }
}

#[test]
fn an_answer_that_the_log_cannot_take_changes_nothing() {
    let mut app = InquiryApp::new_on(Database::new(), today());
    app.set_input("reading".to_string());
    let result = app.save_activity_at(at(MAX_LOCAL_SECS + 1));
    assert_eq!(result.unwrap_err(), StoreError::Unavailable);
    assert_eq!(app.state(), PlannerState::FirstQuestion);
    assert_eq!(app.db().len(), 0);
    assert!(app.message().is_none());
    assert_eq!(app.current_input(), "reading");
}

#[test]
fn a_day_with_records_starts_with_the_continuation_question() {
    let app = InquiryApp::new_on(log_with(&["having breakfast", "writing code"]), today());
    assert_eq!(app.state(), PlannerState::ContinuationQuestion);
    assert!(!app.is_first_question());
    assert_eq!(app.question_text(), "Você ainda está fazendo \"writing code\"?");
    assert_eq!(app.last_activity().as_ref().unwrap().description, "writing code");
    assert_eq!(app.last_activity().as_ref().unwrap().id, Some(2));
}

#[test]
fn yes_appends_the_same_description_with_a_later_time() {
    let mut app = InquiryApp::new_on(log_with(&["writing code"]), today());
    let before = app.db().count_for_day(today());
    app.handle_yes_no_response_at(true, at(MORNING + 3600)).unwrap();
    assert_eq!(app.state(), PlannerState::Done);
    assert_eq!(app.db().count_for_day(today()), before + 1);
    let listing = app.db().get_activities_for_date(today());
    assert_eq!(listing.len(), 2);
    assert_eq!(listing[0].description, "writing code");
    assert_eq!(listing[1].description, "writing code");
    assert_ne!(listing[0].id, listing[1].id);
    assert!(listing[0].timestamp.is_before(&listing[1].timestamp));
    assert_eq!(listing[1].timestamp, at(MORNING + 3600));
    assert_eq!(app.message().as_deref(), Some("Atividade continuada registrada!"));
}

#[test]
fn no_brings_the_open_question_back_and_appends_nothing() {
    let mut app = InquiryApp::new_on(log_with(&["writing code"]), today());
    app.handle_yes_no_response_at(false, at(MORNING + 3600)).unwrap();
    assert_eq!(app.state(), PlannerState::FirstQuestion);
    assert!(app.is_first_question());
    assert_eq!(app.question_text(), "O que você está fazendo agora?");
    assert_eq!(app.db().len(), 1);
    assert!(app.message().is_none());
    assert!(!app.should_close());
}

#[test]
fn after_a_no_the_new_answer_is_recorded_in_the_same_inquiry() {
    let mut app = InquiryApp::new_on(log_with(&["writing code"]), today());
    app.handle_yes_no_response_at(false, at(MORNING + 3600)).unwrap();
    app.set_input("having lunch".to_string());
    app.save_activity_at(at(MORNING + 3700)).unwrap();
    assert_eq!(app.state(), PlannerState::Done);
    assert_eq!(app.db().count_for_day(today()), 2);
    assert_eq!(app.db().last_for_day(today()).unwrap().description, "having lunch");
}

#[test]
fn a_yes_that_the_log_cannot_take_changes_nothing() {
    let mut app = InquiryApp::new_on(log_with(&["writing code"]), today());
    let result = app.handle_yes_no_response_at(true, at(MAX_LOCAL_SECS + 1));
    assert_eq!(result.unwrap_err(), StoreError::Unavailable);
    assert_eq!(app.state(), PlannerState::ContinuationQuestion);
    assert_eq!(app.db().len(), 1);
    assert!(app.message().is_none());
}

#[test]
fn the_latest_record_is_the_one_with_the_greatest_time() {
    let rows = vec![
        Row {
            id: 1,
            description: "late".to_string(),
            timestamp: "2024-03-05T18:00:00+00:00".to_string(),
            date: "2024-03-05".to_string(),
        },
        Row {
            id: 2,
            description: "early".to_string(),
            timestamp: "2024-03-05T08:00:00+00:00".to_string(),
            date: "2024-03-05".to_string(),
        },
    ];
    let app = InquiryApp::new_on(Database::from_rows(&rows).unwrap(), today());
    assert_eq!(app.question_text(), "Você ainda está fazendo \"late\"?");
}

#[test]
fn cancelling_ends_the_inquiry_without_a_record() {
    let mut app = InquiryApp::new_on(Database::new(), today());
    app.set_input("never saved".to_string());
    app.cancel();
    assert_eq!(app.state(), PlannerState::Done);
    assert!(app.should_close());
    assert!(app.close_requested());
    assert_eq!(app.db().len(), 0);
}

#[test]
fn errors_are_shown_with_their_cause() {
    let mut app = InquiryApp::new_on(Database::new(), today());
    app.report_save_error("disk full");
    assert_eq!(app.message().as_deref(), Some("Erro ao salvar: disk full"));
    app.report_response_error("database is locked");
    assert_eq!(app.message().as_deref(), Some("Erro: database is locked"));
    assert_eq!(app.state(), PlannerState::FirstQuestion);
}

#[test]
fn the_question_is_chosen_again_from_the_log() {
    let mut app = InquiryApp::new_on(Database::new(), today());
    app.set_input("reading".to_string());
    app.save_activity_at(at(MORNING)).unwrap();
    app.setup_question_on(today());
    assert!(!app.is_first_question());
    assert_eq!(app.question_text(), "Você ainda está fazendo \"reading\"?");
    app.setup_question_on(Day { year: 2024, month: 3, day: 6 });
    assert!(app.is_first_question());
    assert_eq!(app.question_text(), "O que você está fazendo agora?");
}

#[test]
fn an_inquiry_of_today_uses_the_clock() {
    let mut app = InquiryApp::new(Database::new()).unwrap();
    assert_eq!(app.state(), PlannerState::FirstQuestion);
    app.set_input("testing".to_string());
    app.save_activity().unwrap();
    assert_eq!(app.state(), PlannerState::Done);
    assert_eq!(app.db().count_activities_today().unwrap(), 1);
    let mut next = InquiryApp::new(Database::from_rows(&app.db().to_rows()).unwrap()).unwrap();
    assert_eq!(next.state(), PlannerState::ContinuationQuestion);
    assert_eq!(next.question_text(), "Você ainda está fazendo \"testing\"?");
    next.handle_yes_no_response(true).unwrap();
    assert_eq!(next.db().count_activities_today().unwrap(), 2);
    next.setup_question().unwrap();
    assert!(!next.is_first_question());
}

#[test]
fn a_window_that_does_not_close_is_closed_by_force_after_the_grace() {
    let mut app = InquiryApp::new_on(Database::new(), today());
    assert!(!app.must_force_exit(100));
    app.cancel();
    assert!(!app.must_force_exit(0));
    assert!(!app.must_force_exit(2));
    assert!(app.must_force_exit(3));
}

#[test]
fn a_window_that_closes_after_an_answer_is_not_closed_by_force() {
    let mut app = InquiryApp::new_on(Database::new(), today());
    app.set_input("reading".to_string());
    app.save_activity_at(at(MORNING)).unwrap();
    assert!(app.should_close());
    assert!(!app.must_force_exit(100));
}

#[test]
fn an_answer_without_words_needs_no_clock() {
    let mut app = InquiryApp::new_on(Database::new(), today());
    app.set_input("   ".to_string());
    assert!(app.save_activity().is_ok());
    assert_eq!(app.state(), PlannerState::FirstQuestion);
    assert_eq!(app.message().as_deref(), Some("Por favor, digite uma atividade."));
    assert_eq!(app.db().len(), 0);
    assert_eq!(app.current_input(), "   ");
}

#[test]
fn a_no_needs_no_clock() {
    let mut app = InquiryApp::new_on(log_with(&["writing code"]), today());
    assert!(app.handle_yes_no_response(false).is_ok());
    assert_eq!(app.state(), PlannerState::FirstQuestion);
    assert_eq!(app.question_text(), "O que você está fazendo agora?");
    assert_eq!(app.db().len(), 1);
    assert!(app.message().is_none());
}

#[test]
fn a_yes_without_a_restated_activity_ends_the_inquiry() {
    let mut app = InquiryApp::new_on(Database::new(), today());
    assert!(app.handle_yes_no_response(true).is_ok());
    assert_eq!(app.state(), PlannerState::Done);
    assert_eq!(app.db().len(), 0);
    assert!(app.message().is_none());
    assert!(!app.close_requested());
}
