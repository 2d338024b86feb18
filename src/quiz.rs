//! The quiz data model: configuration, questions, submissions and responses,
//! each with a mathematical view that the contracts speak of.
use vstd::prelude::*;

verus! {

/// One question of a quiz, with the answers that count as correct.
pub struct Question {
    pub id: String,
    pub text: String,
    pub points: u8,
    pub hint: String,
    pub answers: Vec<String>,
}

pub struct QuestionView {
    pub id: Seq<char>,
    pub text: Seq<char>,
    pub points: u8,
    pub hint: Seq<char>,
    pub answers: Seq<Seq<char>>,
}

pub open spec fn strings_view(v: Seq<String>) -> Seq<Seq<char>> {
    v.map_values(|s: String| s@)
}

pub open spec fn questions_view(v: Seq<Question>) -> Seq<QuestionView> {
    v.map_values(|q: Question| q@)
}

impl View for Question {
    type V = QuestionView;

    open spec fn view(&self) -> QuestionView {
        QuestionView {
            id: self.id@,
            text: self.text@,
            points: self.points,
            hint: self.hint@,
            answers: strings_view(self.answers@),
        }
    }
}

impl Clone for Question {
    fn clone(&self) -> (r: Self)
        ensures
            r@ == self@,
    {
        let answers = self.answers.clone();
        assert(strings_view(answers@) =~= strings_view(self.answers@));
        Question {
            id: self.id.clone(),
            text: self.text.clone(),
            points: self.points,
            hint: self.hint.clone(),
            answers,
        }
    }
}

/// Copies a list of questions, keeping each one as it is.
pub fn clone_questions(v: &Vec<Question>) -> (r: Vec<Question>)
    ensures
        questions_view(r@) == questions_view(v@),
{
    let r = v.clone();
    assert(questions_view(r@) =~= questions_view(v@));
    r
}

/// Settings that hold for the whole quiz.
pub struct General {
    pub title: String,
    pub return_score: bool,
}

/// Where the secret flag comes from, in order of precedence: an environment
/// variable, a file, and a literal fallback.
pub struct Flag {
    pub env: String,
    pub file: String,
    pub static_str: String,
}

/// The two response messages; `correct` may hold the flag placeholder.
pub struct Message {
    pub incorrect: String,
    pub correct: String,
}

impl Clone for Message {
    fn clone(&self) -> (r: Self)
        ensures
            r.incorrect@ == self.incorrect@,
            r.correct@ == self.correct@,
    {
        Message { incorrect: self.incorrect.clone(), correct: self.correct.clone() }
    }
}

/// A loaded quiz configuration.
pub struct Config {
    pub general: General,
    pub questions: Vec<Question>,
    pub flag: Flag,
    pub message: Message,
    pub version: u64,
}

/// The quiz as clients see it.
pub struct Quiz {
    pub title: String,
    pub questions: Vec<Question>,
    pub version: u64,
}

pub struct QuizView {
    pub title: Seq<char>,
    pub questions: Seq<QuestionView>,
    pub version: u64,
}

impl View for Quiz {
    type V = QuizView;

    open spec fn view(&self) -> QuizView {
        QuizView {
            title: self.title@,
            questions: questions_view(self.questions@),
            version: self.version,
        }
    }
}

/// The answer submitted for `id`: the last pair whose key is `id`, as when
/// the pairs are inserted into a map in order.
pub open spec fn answer_for(pairs: Seq<(Seq<char>, Seq<char>)>, id: Seq<char>) -> Option<Seq<char>>
    decreases pairs.len(),
{
    if pairs.len() == 0 {
        None
    } else if pairs.last().0 == id {
        Some(pairs.last().1)
    } else {
        answer_for(pairs.drop_last(), id)
    }
}

/// Answers keyed by question identifier.
pub struct AnswerSubmission {
    pub answers: Vec<(String, String)>,
}

impl View for AnswerSubmission {
    type V = Seq<(Seq<char>, Seq<char>)>;

    open spec fn view(&self) -> Seq<(Seq<char>, Seq<char>)> {
        self.answers@.map_values(|p: (String, String)| (p.0@, p.1@))
    }
}

proof fn lemma_answer_for_push(s: Seq<(Seq<char>, Seq<char>)>, p: (Seq<char>, Seq<char>), k: Seq<char>)
    ensures
        answer_for(s.push(p), k) == if p.0 == k { Some(p.1) } else { answer_for(s, k) },
{
    assert(s.push(p).drop_last() =~= s);
}

proof fn lemma_answer_for_update(s: Seq<(Seq<char>, Seq<char>)>, j: int, a: Seq<char>, k: Seq<char>)
    requires
        0 <= j < s.len(),
        forall|i: int| j < i < s.len() ==> s[i].0 != s[j].0,
    ensures
        answer_for(s.update(j, (s[j].0, a)), k) == if k == s[j].0 { Some(a) } else { answer_for(s, k) },
    decreases s.len(),
{
    let t = s.update(j, (s[j].0, a));
    if j == s.len() - 1 {
        assert(t.drop_last() =~= s.drop_last());
    } else {
        assert(t.drop_last() =~= s.drop_last().update(j, (s[j].0, a)));
        lemma_answer_for_update(s.drop_last(), j, a, k);
    }
}

impl Clone for AnswerSubmission {
    fn clone(&self) -> (r: Self)
        ensures
            r@ == self@,
    {
        let mut answers: Vec<(String, String)> = Vec::new();
        let mut i: usize = 0;
        while i < self.answers.len()
            invariant
                i <= self.answers.len(),
                answers@.len() == i,
                forall|k: int| 0 <= k < i ==> (#[trigger] answers@[k]).0@ == self.answers@[k].0@
                    && answers@[k].1@ == self.answers@[k].1@,
            decreases self.answers.len() - i,
        {
            let pair = &self.answers[i];
            answers.push((pair.0.clone(), pair.1.clone()));
            i = i + 1;
        }
        let r = AnswerSubmission { answers };
        assert(r@ =~= self@);
        r
    }
}

impl AnswerSubmission {
    /// A submission with no answers.
    pub fn new() -> (r: AnswerSubmission)
        ensures
            r@.len() == 0,
            forall|k: Seq<char>| answer_for(r@, k) is None,
    {
        let r = AnswerSubmission { answers: Vec::new() };
        assert(r@ =~= Seq::<(Seq<char>, Seq<char>)>::empty());
        r
    }

    /// The answer given for the question `id`, if any.
    pub fn get(&self, id: &String) -> (r: Option<String>)
        ensures
            match r {
                Some(a) => answer_for(self@, id@) == Some(a@),
                None => answer_for(self@, id@) is None,
            },
    {
        let mut i = self.answers.len();
        assert(self@.subrange(0, i as int) =~= self@);
        while i > 0
            invariant
                i <= self.answers.len(),
                answer_for(self@.subrange(0, i as int), id@) == answer_for(self@, id@),
            decreases i,
        {
            let pair = &self.answers[i - 1];
            assert(self@.subrange(0, i as int).last() == self@[i - 1]);
            if pair.0 == *id {
                return Some(pair.1.clone());
            }
            assert(self@.subrange(0, i as int).drop_last() =~= self@.subrange(0, i - 1));
            i = i - 1;
        }
        None
    }

    /// Records `answer` for the question `id`, replacing an earlier answer to
    /// it.
    pub fn insert(&mut self, id: String, answer: String)
        ensures
            forall|k: Seq<char>|
                #[trigger] answer_for(final(self)@, k) == if k == id@ {
                    Some(answer@)
                } else {
                    answer_for(old(self)@, k)
                },
    {
        let ghost s = self@;
        let mut i = self.answers.len();
        while i > 0
            invariant
                i <= self.answers.len(),
                self@ == s,
                s == old(self)@,
                forall|m: int| i <= m < s.len() ==> s[m].0 != id@,
            decreases i,
        {
            if self.answers[i - 1].0 == id {
                let j = i - 1;
                let ghost p = (id@, answer@);
                assert(s[j as int].0 == p.0);
                self.answers.set(j, (id, answer));
                proof {
                    assert(self@ =~= s.update(j as int, (s[j as int].0, p.1)));
                    assert forall|k: Seq<char>|
                        #[trigger] answer_for(self@, k) == if k == p.0 {
                            Some(p.1)
                        } else {
                            answer_for(s, k)
                        } by {
                        lemma_answer_for_update(s, j as int, p.1, k);
                    }
                }
                return;
            }
            i = i - 1;
        }
        let ghost p = (id@, answer@);
        self.answers.push((id, answer));
        proof {
            assert(self@ =~= s.push(p));
            assert forall|k: Seq<char>|
                #[trigger] answer_for(self@, k) == if k == p.0 {
                    Some(p.1)
                } else {
                    answer_for(s, k)
                } by {
                lemma_answer_for_push(s, p, k);
            }
        }
    }
}

/// The outcome of a submission.
pub struct QuizResponse {
    pub status: bool,
    pub score: Option<u8>,
    pub message: String,
}

pub struct QuizResponseView {
    pub status: bool,
    pub score: Option<u8>,
    pub message: Seq<char>,
}

impl View for QuizResponse {
    type V = QuizResponseView;

    open spec fn view(&self) -> QuizResponseView {
        QuizResponseView { status: self.status, score: self.score, message: self.message@ }
    }
}

} // verus!
