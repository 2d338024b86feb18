//! Preparing a loaded configuration and deriving the public quiz from it.
use vstd::prelude::*;
use vstd::string::*;
use crate::quiz::{questions_view, strings_view, Config, Question, QuestionView, Quiz};
use crate::submission::{lemma_total_prefix, total_points};
use crate::text::{decimal, lemma_decimal_injective, to_decimal};

verus! {

/// The identifier of the question at index `i`: `q1`, `q2`, and so on.
pub open spec fn question_id(i: nat) -> Seq<char> {
    seq!['q'] + decimal(i + 1)
}

/// Questions at different positions get different identifiers.
pub proof fn lemma_question_ids_unique(i: nat, j: nat)
    requires
        i != j,
    ensures
        question_id(i) != question_id(j),
{
    if question_id(i) == question_id(j) {
        assert(decimal(i + 1) =~= question_id(i).subrange(1, question_id(i).len() as int));
        assert(decimal(j + 1) =~= question_id(j).subrange(1, question_id(j).len() as int));
        lemma_decimal_injective(i + 1, j + 1);
    }
}

/// The identifier of the question `q` at index `i`: its own when the
/// configuration supplies one, else the one its position gives.
pub open spec fn assigned_id(q: QuestionView, i: nat) -> Seq<char> {
    if q.id.len() == 0 {
        question_id(i)
    } else {
        q.id
    }
}

/// The questions with each missing identifier filled in from its position.
pub open spec fn with_ids(qs: Seq<QuestionView>) -> Seq<QuestionView> {
    Seq::new(qs.len(), |i: int| QuestionView { id: assigned_id(qs[i], i as nat), ..qs[i] })
}

/// No two questions share an identifier.
pub open spec fn ids_unique(qs: Seq<QuestionView>) -> bool {
    forall|a: int, b: int|
        0 <= a < qs.len() && 0 <= b < qs.len() && a != b ==> #[trigger] qs[a].id != #[trigger] qs[b].id
}

/// Where the configuration supplies no identifiers, the ones filled in are
/// all different.
pub proof fn lemma_filled_ids_unique(qs: Seq<QuestionView>)
    requires
        forall|i: int| 0 <= i < qs.len() ==> (#[trigger] qs[i]).id.len() == 0,
    ensures
        ids_unique(with_ids(qs)),
{
    let w = with_ids(qs);
    assert forall|a: int, b: int|
        0 <= a < w.len() && 0 <= b < w.len() && a != b implies #[trigger] w[a].id != #[trigger] w[b].id by {
        assert(qs[a].id.len() == 0);
        assert(qs[b].id.len() == 0);
        lemma_question_ids_unique(a as nat, b as nat);
    }
}

/// The view of a question as clients get it: without accepted answers.
pub open spec fn public_question(q: QuestionView) -> QuestionView {
    QuestionView { answers: Seq::empty(), ..q }
}

/// Why a configuration cannot be served.
pub enum ConfigError {
    /// The points of all questions add up to more than a score can hold.
    ScoreOverflow,
    /// Two questions have the same identifier.
    DuplicateId,
}

fn numbered_id(i: usize) -> (r: String)
    requires
        i < usize::MAX,
    ensures
        r@ == question_id(i as nat),
{
    proof {
        reveal_strlit("q");
    }
    let mut id = String::from_str("q");
    let n = to_decimal((i + 1) as u64);
    id.append(n.as_str());
    assert(id@ =~= question_id(i as nat));
    id
}

/// The questions with each missing identifier set to `q<position>`,
/// counting from one; everything else is kept.
pub fn number_questions(questions: &Vec<Question>) -> (r: Vec<Question>)
    ensures
        questions_view(r@) == with_ids(questions_view(questions@)),
{
    let mut r: Vec<Question> = Vec::new();
    let mut i: usize = 0;
    while i < questions.len()
        invariant
            i <= questions.len(),
            r@.len() == i,
            forall|k: int|
                0 <= k < i ==> #[trigger] r@[k]@ == (QuestionView {
                    id: assigned_id(questions@[k]@, k as nat),
                    ..questions@[k]@
                }),
        decreases questions.len() - i,
    {
        let q = &questions[i];
        let answers = q.answers.clone();
        assert(strings_view(answers@) =~= strings_view(q.answers@));
        let id = if q.id.as_str().is_empty() {
            numbered_id(i)
        } else {
            q.id.clone()
        };
        r.push(Question {
            id,
            text: q.text.clone(),
            points: q.points,
            hint: q.hint.clone(),
            answers,
        });
        i = i + 1;
    }
    assert(questions_view(r@) =~= with_ids(questions_view(questions@)));
    r
}

/// Whether no two questions share an identifier.
pub fn ids_distinct(questions: &Vec<Question>) -> (r: bool)
    ensures
        r == ids_unique(questions_view(questions@)),
{
    let ghost qs = questions_view(questions@);
    let mut i: usize = 0;
    while i < questions.len()
        invariant
            qs == questions_view(questions@),
            i <= questions.len(),
            forall|a: int, b: int|
                0 <= a < i && 0 <= b < i && a != b ==> #[trigger] qs[a].id != #[trigger] qs[b].id,
        decreases questions.len() - i,
    {
        let mut j: usize = 0;
        while j < i
            invariant
                qs == questions_view(questions@),
                j <= i < questions.len(),
                forall|b: int| 0 <= b < j ==> qs[i as int].id != #[trigger] qs[b].id,
            decreases i - j,
        {
            if questions[i].id == questions[j].id {
                assert(qs[i as int].id == qs[j as int].id);
                return false;
            }
            j = j + 1;
        }
        assert forall|a: int, b: int|
            0 <= a < i + 1 && 0 <= b < i + 1 && a != b implies #[trigger] qs[a].id != #[trigger] qs[b].id by {
            if a == i {
                assert(qs[i as int].id != qs[b].id);
            } else if b == i {
                assert(qs[i as int].id != qs[a].id);
            }
        }
        i = i + 1;
    }
    true
}

/// Whether the points of all questions add up to at most `u8::MAX`.
pub fn points_fit(questions: &Vec<Question>) -> (r: bool)
    ensures
        r == (total_points(questions_view(questions@)) <= u8::MAX),
{
    let ghost qs = questions_view(questions@);
    let mut sum: u32 = 0;
    let mut i: usize = 0;
    while i < questions.len()
        invariant
            qs == questions_view(questions@),
            i <= questions.len(),
            sum == total_points(qs.subrange(0, i as int)),
            sum <= u8::MAX,
        decreases questions.len() - i,
    {
        assert(qs.subrange(0, i + 1).drop_last() =~= qs.subrange(0, i as int));
        sum = sum + questions[i].points as u32;
        if sum > 255 {
            proof {
                lemma_total_prefix(qs, i + 1);
            }
            return false;
        }
        i = i + 1;
    }
    assert(qs.subrange(0, i as int) =~= qs);
    true
}

impl Config {
    /// Makes a freshly loaded configuration ready to serve: each question
    /// without an identifier gets one from its position. Fails when the
    /// points cannot be scored, or when two questions end up with the same
    /// identifier.
    pub fn prepare(self) -> (r: Result<Config, ConfigError>)
        ensures
            match r {
                Ok(c) => {
                    &&& total_points(questions_view(self.questions@)) <= u8::MAX
                    &&& questions_view(c.questions@) == with_ids(questions_view(self.questions@))
                    &&& ids_unique(questions_view(c.questions@))
                    &&& c.general == self.general
                    &&& c.flag == self.flag
                    &&& c.message == self.message
                    &&& c.version == self.version
                },
                Err(ConfigError::ScoreOverflow) => total_points(questions_view(self.questions@)) > u8::MAX,
                Err(ConfigError::DuplicateId) => {
                    &&& total_points(questions_view(self.questions@)) <= u8::MAX
                    &&& !ids_unique(with_ids(questions_view(self.questions@)))
                },
            },
    {
        if !points_fit(&self.questions) {
            return Err(ConfigError::ScoreOverflow);
        }
        let questions = number_questions(&self.questions);
        if !ids_distinct(&questions) {
            return Err(ConfigError::DuplicateId);
        }
        Ok(Config {
            general: self.general,
            questions,
            flag: self.flag,
            message: self.message,
            version: self.version,
        })
    }
}

/// The quiz as clients see it: the title, the questions without their
/// accepted answers, and the version.
pub fn get_quiz(config: &Config) -> (r: Quiz)
    ensures
        r@.title == config.general.title@,
        r@.version == config.version,
        r@.questions == questions_view(config.questions@).map_values(|q: QuestionView| public_question(q)),
{
    let mut questions: Vec<Question> = Vec::new();
    let mut i: usize = 0;
    while i < config.questions.len()
        invariant
            i <= config.questions.len(),
            questions@.len() == i,
            forall|k: int|
                0 <= k < i ==> #[trigger] questions@[k]@ == public_question(config.questions@[k]@),
        decreases config.questions.len() - i,
    {
        let q = &config.questions[i];
        let answers: Vec<String> = Vec::new();
        assert(strings_view(answers@) =~= Seq::empty());
        questions.push(Question {
            id: q.id.clone(),
            text: q.text.clone(),
            points: q.points,
            hint: q.hint.clone(),
            answers,
        });
        i = i + 1;
    }
    let r = Quiz { title: config.general.title.clone(), questions, version: config.version };
    assert(r@.questions =~= questions_view(config.questions@).map_values(|q: QuestionView| public_question(q)));
    r
}

} // verus!
