use neko_quiz::catalog::{get_quiz, ids_distinct, number_questions, points_fit, ConfigError};
use neko_quiz::quiz::{Config, Flag, General, Message, Question};

fn question(id: &str, points: u8, answers: &[&str]) -> Question {
    Question {
        id: id.to_string(),
        text: format!("<b>text</b> {points}"),
        points,
        hint: "hint".to_string(),
        answers: answers.iter().map(|a| a.to_string()).collect(),
    }
}

fn config(questions: Vec<Question>) -> Config {
    Config {
        general: General { title: "猫咪问答".to_string(), return_score: true },
        questions,
        flag: Flag { env: "E".to_string(), file: "f".to_string(), static_str: "s".to_string() },
        message: Message { incorrect: "no".to_string(), correct: "$FLAG".to_string() },
        version: 7,
    }
}

#[test]
fn prepare_numbers_questions_without_ids() {
    let c = config(vec![question("", 1, &["a"]), question("", 2, &["b"]), question("", 3, &[])]);
    let c = match c.prepare() {
        Ok(c) => c,
        Err(_) => panic!("configuration should be accepted"),
    };
    let ids: Vec<&str> = c.questions.iter().map(|q| q.id.as_str()).collect();
    assert_eq!(ids, vec!["q1", "q2", "q3"]);
    assert_eq!(c.questions[1].points, 2);
    assert_eq!(c.questions[1].answers, vec!["b".to_string()]);
    assert_eq!(c.version, 7);
    assert_eq!(c.general.title, "猫咪问答");
}

#[test]
fn numbering_goes_past_nine() {
    let qs: Vec<Question> = (0..12).map(|_| question("", 1, &["a"])).collect();
    let numbered = number_questions(&qs);
    assert_eq!(numbered[9].id, "q10");
    assert_eq!(numbered[11].id, "q12");
}

#[test]
fn prepare_rejects_points_beyond_score_range() {
    let c = config(vec![question("", 200, &["a"]), question("", 56, &["b"])]);
    assert!(matches!(c.prepare(), Err(ConfigError::ScoreOverflow)));
}

#[test]
fn points_fit_at_the_limit() {
    assert!(points_fit(&vec![question("", 200, &[]), question("", 55, &[])]));
    assert!(!points_fit(&vec![question("", 255, &[]), question("", 1, &[])]));
    assert!(points_fit(&vec![]));
}

#[test]
fn public_quiz_strips_answers() {
    let c = config(vec![question("q1", 5, &["cat"]), question("q2", 3, &["dog", "puppy"])]);
    let quiz = get_quiz(&c);
    assert_eq!(quiz.title, "猫咪问答");
    assert_eq!(quiz.version, 7);
    assert_eq!(quiz.questions.len(), 2);
    assert_eq!(quiz.questions[1].id, "q2");
    assert_eq!(quiz.questions[1].points, 3);
    assert_eq!(quiz.questions[1].text, "<b>text</b> 3");
    assert!(quiz.questions.iter().all(|q| q.answers.is_empty()));
    assert_eq!(c.questions[1].answers.len(), 2);
}

#[test]
fn prepare_keeps_supplied_ids() {
    let c = config(vec![question("", 1, &["a"]), question("custom", 2, &["b"]), question("", 3, &[])]);
    let c = match c.prepare() {
        Ok(c) => c,
        Err(_) => panic!("configuration should be accepted"),
    };
    let ids: Vec<&str> = c.questions.iter().map(|q| q.id.as_str()).collect();
    assert_eq!(ids, vec!["q1", "custom", "q3"]);
}

#[test]
fn prepare_rejects_duplicate_supplied_ids() {
    let c = config(vec![question("same", 1, &["a"]), question("same", 2, &["b"])]);
    assert!(matches!(c.prepare(), Err(ConfigError::DuplicateId)));
}

#[test]
fn prepare_rejects_supplied_id_clashing_with_filled_one() {
    let c = config(vec![question("q2", 1, &["a"]), question("", 2, &["b"])]);
    assert!(matches!(c.prepare(), Err(ConfigError::DuplicateId)));
}

#[test]
fn ids_distinct_checks_every_pair() {
    assert!(ids_distinct(&vec![question("a", 1, &[]), question("b", 1, &[]), question("c", 1, &[])]));
    assert!(!ids_distinct(&vec![question("a", 1, &[]), question("b", 1, &[]), question("a", 1, &[])]));
    assert!(ids_distinct(&vec![]));
}
