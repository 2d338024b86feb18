use neko_quiz::client::{alert_for_response, AlertType, AppAction, AppState, DraftStore, Phase, QuizError};
use neko_quiz::quiz::{AnswerSubmission, Question, Quiz, QuizResponse};

fn quiz(version: u64) -> Quiz {
    Quiz {
        title: "猫咪问答".to_string(),
        questions: vec![Question {
            id: "q1".to_string(),
            text: "Which animal?".to_string(),
            points: 5,
            hint: "meow".to_string(),
            answers: vec![],
        }],
        version,
    }
}

fn store_with_draft(version: u64) -> DraftStore {
    let mut answers = AnswerSubmission::new();
    answers.insert("q1".to_string(), "cat".to_string());
    DraftStore { version, answers }
}

#[test]
fn new_version_clears_drafts_and_is_stored() {
    let mut store = store_with_draft(1);
    let state = AppState::new().reduce(AppAction::SetQuiz(quiz(2)), &mut store);
    assert_eq!(store.version, 2);
    assert!(store.answers.answers.is_empty());
    assert!(state.answers.answers.is_empty());
    assert_eq!(state.header, "猫咪问答");
    assert_eq!(state.phase, Phase::Loaded);
}

#[test]
fn same_version_keeps_drafts() {
    let mut store = store_with_draft(1);
    let state = AppState::new().reduce(AppAction::SetQuiz(quiz(1)), &mut store);
    assert_eq!(store.version, 1);
    assert_eq!(store.answers.get(&"q1".to_string()), Some("cat".to_string()));
    assert_eq!(state.answers.get(&"q1".to_string()), Some("cat".to_string()));
}

#[test]
fn first_load_with_empty_storage_version_zero() {
    let mut store = DraftStore::new();
    let state = AppState::new().reduce(AppAction::SetQuiz(quiz(0)), &mut store);
    assert_eq!(store.version, 0);
    assert!(state.answers.answers.is_empty());
}

#[test]
fn edited_answer_is_stored_at_once() {
    let mut store = DraftStore::new();
    let state = AppState::new().reduce(AppAction::SetQuiz(quiz(3)), &mut store);
    let state = state.reduce(AppAction::SetAnswer("q1".to_string(), "dog".to_string()), &mut store);
    let state = state.reduce(AppAction::SetAnswer("q1".to_string(), "cat".to_string()), &mut store);
    assert_eq!(state.answers.get(&"q1".to_string()), Some("cat".to_string()));
    assert_eq!(store.answers.get(&"q1".to_string()), Some("cat".to_string()));
    assert_eq!(store.answers.answers.len(), 1);
    assert_eq!(store.version, 3);
}

#[test]
fn only_one_submission_in_flight() {
    let mut store = DraftStore::new();
    let mut state = AppState::new().reduce(AppAction::SetQuiz(quiz(1)), &mut store);
    state = state.reduce(AppAction::SetAnswer("q1".to_string(), "cat".to_string()), &mut store);
    let first = state.begin_submission();
    assert!(first.is_some());
    assert_eq!(first.unwrap().get(&"q1".to_string()), Some("cat".to_string()));
    assert!(state.begin_submission().is_none());
    assert_eq!(state.phase, Phase::Submitting);
    let response = QuizResponse { status: true, score: Some(5), message: "flag{x}".to_string() };
    let mut state = state.reduce(AppAction::SetQuizResponse(response), &mut store);
    assert_eq!(state.phase, Phase::Graded);
    assert!(state.begin_submission().is_some());
}

#[test]
fn success_alert_shows_score_and_message() {
    let alert = alert_for_response(&QuizResponse { status: true, score: Some(8), message: "flag{x}".to_string() });
    assert_eq!(alert.alert_type, AlertType::Success);
    assert_eq!(alert.text, "本次测验总得分为 8。<br/>flag{x}");
}

#[test]
fn failed_alert_without_score() {
    let alert = alert_for_response(&QuizResponse { status: false, score: None, message: "再试试".to_string() });
    assert_eq!(alert.alert_type, AlertType::Info);
    assert_eq!(alert.text, "再试试");
}

#[test]
fn transport_failure_shows_error_and_keeps_drafts() {
    let mut store = DraftStore::new();
    let mut state = AppState::new().reduce(AppAction::SetQuiz(quiz(1)), &mut store);
    state = state.reduce(AppAction::SetAnswer("q1".to_string(), "cat".to_string()), &mut store);
    let _ = state.begin_submission();
    let state = state.reduce(AppAction::RequestFailed(QuizError::NetworkError("timeout".to_string())), &mut store);
    let alert = state.alert_info.as_ref().unwrap();
    assert_eq!(alert.alert_type, AlertType::Error);
    assert_eq!(alert.text, "Network error occurred: timeout");
    assert_eq!(state.phase, Phase::Failed);
    assert_eq!(state.answers.get(&"q1".to_string()), Some("cat".to_string()));
    assert_eq!(store.answers.get(&"q1".to_string()), Some("cat".to_string()));
}

#[test]
fn parse_error_text() {
    assert_eq!(QuizError::ParseError("bad".to_string()).message(), "Failed to parse JSON: bad");
}
