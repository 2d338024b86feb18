//! The client's state machine: loading the quiz, keeping draft answers in
//! local storage keyed by the quiz version, submitting, and the alert shown
//! for each outcome.
use vstd::prelude::*;
use vstd::string::*;
use crate::quiz::{answer_for, AnswerSubmission, Question, Quiz, QuizResponse};
use crate::text::{decimal, to_decimal};

verus! {

#[derive(Clone, Copy, Debug, PartialEq, Eq, Structural)]
pub enum AlertType {
    Success,
    Error,
    Info,
}

/// An alert for the user; its text may hold markup.
#[derive(Debug)]
pub struct AlertInfo {
    pub alert_type: AlertType,
    pub text: String,
}

/// Why a request of the client failed.
#[derive(Debug)]
pub enum QuizError {
    NetworkError(String),
    ParseError(String),
}

pub open spec fn error_text(e: QuizError) -> Seq<char> {
    match e {
        QuizError::NetworkError(d) => "Network error occurred: "@ + d@,
        QuizError::ParseError(d) => "Failed to parse JSON: "@ + d@,
    }
}

impl QuizError {
    /// The text shown to the user for this error.
    pub fn message(&self) -> (r: String)
        ensures
            r@ == error_text(*self),
    {
        match self {
            QuizError::NetworkError(d) => {
                let mut s = String::from_str("Network error occurred: ");
                s.append(d.as_str());
                s
            },
            QuizError::ParseError(d) => {
                let mut s = String::from_str("Failed to parse JSON: ");
                s.append(d.as_str());
                s
            },
        }
    }
}

/// Where the client stands.
#[derive(Clone, Copy, Debug, PartialEq, Eq, Structural)]
pub enum Phase {
    Loading,
    Loaded,
    Submitting,
    Graded,
    Failed,
}

/// What the browser's local storage holds for the quiz: the version the
/// drafts belong to, and the drafts keyed by question identifier.
pub struct DraftStore {
    pub version: u64,
    pub answers: AnswerSubmission,
}

impl DraftStore {
    /// Empty storage; an absent version reads as zero.
    pub fn new() -> (r: DraftStore)
        ensures
            r.version == 0,
            r.answers@.len() == 0,
    {
        DraftStore { version: 0, answers: AnswerSubmission::new() }
    }
}

/// The client's state.
pub struct AppState {
    pub header: String,
    pub questions: Vec<Question>,
    pub answers: AnswerSubmission,
    pub alert_info: Option<AlertInfo>,
    pub phase: Phase,
}

/// Something that happened to the client.
pub enum AppAction {
    /// The quiz was fetched.
    SetQuiz(Quiz),
    /// The user edited the answer to a question.
    SetAnswer(String, String),
    SetAlertInfo(Option<AlertInfo>),
    /// The server answered a submission.
    SetQuizResponse(QuizResponse),
    /// Fetching the quiz or sending a submission failed.
    RequestFailed(QuizError),
}

/// The line that reports the score, if the server gave one.
pub open spec fn score_line(score: Option<u8>) -> Seq<char> {
    match score {
        Some(s) => "本次测验总得分为 "@ + decimal(s as nat) + "。<br/>"@,
        None => Seq::empty(),
    }
}

pub open spec fn response_alert_type(status: bool) -> AlertType {
    if status { AlertType::Success } else { AlertType::Info }
}

/// The alert for a response: a success alert when the submission passed,
/// an informational one otherwise, with the score line before the message.
pub fn alert_for_response(response: &QuizResponse) -> (r: AlertInfo)
    ensures
        r.alert_type == response_alert_type(response.status),
        r.text@ == score_line(response.score) + response.message@,
{
    let mut text = match response.score {
        Some(s) => {
            let mut line = String::from_str("本次测验总得分为 ");
            line.append(to_decimal(s as u64).as_str());
            line.append("。<br/>");
            line
        },
        None => String::new(),
    };
    text.append(response.message.as_str());
    let alert_type = if response.status { AlertType::Success } else { AlertType::Info };
    AlertInfo { alert_type, text }
}

impl AppState {
    /// The state before the quiz has been fetched.
    pub fn new() -> (r: AppState)
        ensures
            r.header@.len() == 0,
            r.questions@.len() == 0,
            r.answers@.len() == 0,
            r.alert_info is None,
            r.phase == Phase::Loading,
    {
        AppState {
            header: String::new(),
            questions: Vec::new(),
            answers: AnswerSubmission::new(),
            alert_info: None,
            phase: Phase::Loading,
        }
    }

    /// Applies `action` to the state and to the stored drafts.
    ///
    /// A fetched quiz whose version differs from the stored one clears the
    /// stored drafts and stores the new version; with the same version the
    /// stored drafts become the current answers. An edited answer is kept in
    /// the state and stored at once. A failed request shows an error and
    /// leaves the drafts alone.
    pub fn reduce(self, action: AppAction, store: &mut DraftStore) -> (r: AppState)
        ensures
            match action {
                AppAction::SetQuiz(quiz) => {
                    &&& r.header == quiz.title
                    &&& r.questions == quiz.questions
                    &&& r.alert_info == self.alert_info
                    &&& r.phase == Phase::Loaded
                    &&& final(store).version == quiz.version
                    &&& if quiz.version == old(store).version {
                        &&& final(store).answers@ == old(store).answers@
                        &&& r.answers@ == old(store).answers@
                    } else {
                        &&& final(store).answers@.len() == 0
                        &&& r.answers@.len() == 0
                    }
                },
                AppAction::SetAnswer(id, answer) => {
                    &&& forall|k: Seq<char>|
                        #[trigger] answer_for(r.answers@, k) == if k == id@ {
                            Some(answer@)
                        } else {
                            answer_for(self.answers@, k)
                        }
                    &&& forall|k: Seq<char>|
                        #[trigger] answer_for(final(store).answers@, k) == if k == id@ {
                            Some(answer@)
                        } else {
                            answer_for(old(store).answers@, k)
                        }
                    &&& final(store).version == old(store).version
                    &&& r.header == self.header
                    &&& r.questions == self.questions
                    &&& r.alert_info == self.alert_info
                    &&& r.phase == self.phase
                },
                AppAction::SetAlertInfo(info) => {
                    &&& r.alert_info == info
                    &&& r.header == self.header
                    &&& r.questions == self.questions
                    &&& r.answers == self.answers
                    &&& r.phase == self.phase
                    &&& *final(store) == *old(store)
                },
                AppAction::SetQuizResponse(response) => {
                    &&& r.alert_info matches Some(a) && a.alert_type == response_alert_type(
                        response.status,
                    ) && a.text@ == score_line(response.score) + response.message@
                    &&& r.phase == Phase::Graded
                    &&& r.header == self.header
                    &&& r.questions == self.questions
                    &&& r.answers == self.answers
                    &&& *final(store) == *old(store)
                },
                AppAction::RequestFailed(e) => {
                    &&& r.alert_info matches Some(a) && a.alert_type == AlertType::Error
                        && a.text@ == error_text(e)
                    &&& r.phase == Phase::Failed
                    &&& r.header == self.header
                    &&& r.questions == self.questions
                    &&& r.answers == self.answers
                    &&& *final(store) == *old(store)
                },
            },
    {
        match action {
            AppAction::SetQuiz(quiz) => {
                let answers = if quiz.version == store.version {
                    store.answers.clone()
                } else {
                    store.version = quiz.version;
                    store.answers = AnswerSubmission::new();
                    AnswerSubmission::new()
                };
                AppState {
                    header: quiz.title,
                    questions: quiz.questions,
                    answers,
                    alert_info: self.alert_info,
                    phase: Phase::Loaded,
                }
            },
            AppAction::SetAnswer(id, answer) => {
                let mut answers = self.answers;
                store.answers.insert(id.clone(), answer.clone());
                answers.insert(id, answer);
                AppState {
                    header: self.header,
                    questions: self.questions,
                    answers,
                    alert_info: self.alert_info,
                    phase: self.phase,
                }
            },
            AppAction::SetAlertInfo(info) => AppState {
                header: self.header,
                questions: self.questions,
                answers: self.answers,
                alert_info: info,
                phase: self.phase,
            },
            AppAction::SetQuizResponse(response) => AppState {
                header: self.header,
                questions: self.questions,
                answers: self.answers,
                alert_info: Some(alert_for_response(&response)),
                phase: Phase::Graded,
            },
            AppAction::RequestFailed(e) => AppState {
                header: self.header,
                questions: self.questions,
                answers: self.answers,
                alert_info: Some(AlertInfo { alert_type: AlertType::Error, text: e.message() }),
                phase: Phase::Failed,
            },
        }
    }

    /// Starts a submission of the current answers, unless one is already
    /// in flight.
    pub fn begin_submission(&mut self) -> (r: Option<AnswerSubmission>)
        ensures
            old(self).phase == Phase::Submitting ==> r is None && *final(self) == *old(self),
            old(self).phase != Phase::Submitting ==> {
                &&& r matches Some(s) && s@ == old(self).answers@
                &&& final(self).phase == Phase::Submitting
                &&& final(self).header == old(self).header
                &&& final(self).questions == old(self).questions
                &&& final(self).answers == old(self).answers
                &&& final(self).alert_info == old(self).alert_info
            },
    {
        if self.phase == Phase::Submitting {
            return None;
        }
        self.phase = Phase::Submitting;
        Some(self.answers.clone())
    }
}

} // verus!
