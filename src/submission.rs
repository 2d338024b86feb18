//! Scoring a submission against the authoritative question list.
use vstd::prelude::*;
use crate::quiz::{
    answer_for, questions_view, strings_view, AnswerSubmission, Config, Message, Question,
    QuestionView, QuizResponse,
};
use crate::text::{occurs_at, replace_all, replaced, lemma_replaced_single_occurrence};

verus! {

/// Whether the submission answers `q` with one of its accepted answers.
pub open spec fn is_correct(q: QuestionView, sub: Seq<(Seq<char>, Seq<char>)>) -> bool {
    match answer_for(sub, q.id) {
        Some(a) => q.answers.contains(a),
        None => false,
    }
}

/// Whether every question is answered correctly.
pub open spec fn all_correct(qs: Seq<QuestionView>, sub: Seq<(Seq<char>, Seq<char>)>) -> bool {
    forall|i: int| 0 <= i < qs.len() ==> #[trigger] is_correct(qs[i], sub)
}

/// The points of the correctly answered questions.
pub open spec fn earned(qs: Seq<QuestionView>, sub: Seq<(Seq<char>, Seq<char>)>) -> nat
    decreases qs.len(),
{
    if qs.len() == 0 {
        0
    } else {
        earned(qs.drop_last(), sub) + if is_correct(qs.last(), sub) {
            qs.last().points as nat
        } else {
            0
        }
    }
}

/// The points of all questions.
pub open spec fn total_points(qs: Seq<QuestionView>) -> nat
    decreases qs.len(),
{
    if qs.len() == 0 {
        0
    } else {
        total_points(qs.drop_last()) + qs.last().points as nat
    }
}

/// The placeholder that the success message carries for the flag.
pub open spec fn placeholder() -> Seq<char> {
    seq!['$', 'F', 'L', 'A', 'G']
}

/// The success message: the template with the flag in place of each
/// placeholder.
pub open spec fn success_message(template: Seq<char>, flag: Seq<char>) -> Seq<char> {
    replaced(template, placeholder(), flag)
}

/// What a submission earns against the questions `qs`.
pub open spec fn evaluation(
    qs: Seq<QuestionView>,
    sub: Seq<(Seq<char>, Seq<char>)>,
    correct: Seq<char>,
    incorrect: Seq<char>,
    flag: Seq<char>,
    return_score: bool,
) -> (bool, Option<u8>, Seq<char>) {
    let status = all_correct(qs, sub);
    (
        status,
        if return_score { Some(earned(qs, sub) as u8) } else { None },
        if status { success_message(correct, flag) } else { incorrect },
    )
}

proof fn lemma_earned_le_total(qs: Seq<QuestionView>, sub: Seq<(Seq<char>, Seq<char>)>)
    ensures
        earned(qs, sub) <= total_points(qs),
    decreases qs.len(),
{
    if qs.len() > 0 {
        lemma_earned_le_total(qs.drop_last(), sub);
    }
}

pub(crate) proof fn lemma_total_prefix(qs: Seq<QuestionView>, i: int)
    requires
        0 <= i <= qs.len(),
    ensures
        total_points(qs.subrange(0, i)) <= total_points(qs),
    decreases qs.len() - i,
{
    if i < qs.len() {
        lemma_total_prefix(qs, i + 1);
        assert(qs.subrange(0, i + 1).drop_last() =~= qs.subrange(0, i));
    } else {
        assert(qs.subrange(0, i) =~= qs);
    }
}

/// Whether the accepted answers include `a`.
fn accepts(answers: &Vec<String>, a: &String) -> (r: bool)
    ensures
        r == strings_view(answers@).contains(a@),
{
    let mut i: usize = 0;
    while i < answers.len()
        invariant
            i <= answers.len(),
            forall|j: int| 0 <= j < i ==> answers@[j]@ != a@,
        decreases answers.len() - i,
    {
        if answers[i] == *a {
            assert(strings_view(answers@)[i as int] == a@);
            return true;
        }
        i = i + 1;
    }
    assert forall|j: int| 0 <= j < strings_view(answers@).len() implies strings_view(answers@)[j] != a@ by {
        assert(answers@[j]@ != a@);
    }
    false
}

/// Whether the submission answers `q` correctly.
fn check_question(q: &Question, submission: &AnswerSubmission) -> (r: bool)
    ensures
        r == is_correct(q@, submission@),
{
    match submission.get(&q.id) {
        Some(a) => accepts(&q.answers, &a),
        None => false,
    }
}

/// The message for a fully correct submission: `template` with `flag` in
/// place of every `$FLAG`.
pub fn fill_flag(template: &String, flag: &String) -> (r: String)
    ensures
        r@ == success_message(template@, flag@),
{
    let p = "$FLAG";
    proof {
        reveal_strlit("$FLAG");
    }
    assert(p@ =~= placeholder());
    replace_all(template.as_str(), p, flag.as_str())
}

/// Scores `submission` against `questions`.
///
/// The status is true exactly when every question is answered with one of
/// its accepted answers; answers to unknown identifiers are ignored. The
/// score, the sum of the points of the correctly answered questions, is
/// given only when `return_score` holds. The message is the success template
/// with the flag filled in, or the incorrect message.
pub fn evaluate(
    questions: &Vec<Question>,
    submission: &AnswerSubmission,
    flag: &String,
    message: &Message,
    return_score: bool,
) -> (r: QuizResponse)
    requires
        total_points(questions_view(questions@)) <= u8::MAX,
    ensures
        (r.status, r.score, r.message@) == evaluation(
            questions_view(questions@),
            submission@,
            message.correct@,
            message.incorrect@,
            flag@,
            return_score,
        ),
{
    let ghost qs = questions_view(questions@);
    let mut status = true;
    let mut score: u8 = 0;
    let mut i: usize = 0;
    while i < questions.len()
        invariant
            qs == questions_view(questions@),
            total_points(qs) <= u8::MAX,
            i <= questions.len(),
            status == all_correct(qs.subrange(0, i as int), submission@),
            score == earned(qs.subrange(0, i as int), submission@),
        decreases questions.len() - i,
    {
        let ghost pre = qs.subrange(0, i as int);
        let ghost next = qs.subrange(0, i + 1);
        assert(next.drop_last() =~= pre);
        assert(next.last() == questions@[i as int]@);
        proof {
            lemma_total_prefix(qs, i + 1);
            lemma_earned_le_total(next, submission@);
        }
        if check_question(&questions[i], submission) {
            score = score + questions[i].points;
        } else {
            status = false;
        }
        proof {
            if all_correct(next, submission@) {
                assert forall|j: int| 0 <= j < pre.len() implies #[trigger] is_correct(pre[j], submission@) by {
                    assert(is_correct(next[j], submission@));
                }
            }
            if all_correct(pre, submission@) && is_correct(next.last(), submission@) {
                assert forall|j: int| 0 <= j < next.len() implies #[trigger] is_correct(next[j], submission@) by {
                    if j < pre.len() {
                        assert(is_correct(pre[j], submission@));
                    }
                }
            }
            if !is_correct(next.last(), submission@) {
                assert(!is_correct(next[i as int], submission@));
            }
        }
        i = i + 1;
    }
    assert(qs.subrange(0, i as int) =~= qs);
    let text = if status {
        fill_flag(&message.correct, flag)
    } else {
        message.incorrect.clone()
    };
    QuizResponse {
        status,
        score: if return_score { Some(score) } else { None },
        message: text,
    }
}

/// Scores `submission` against the questions and messages of `config`, with
/// `flag` as the resolved flag.
pub fn create_submission(config: &Config, submission: &AnswerSubmission, flag: &String) -> (r: QuizResponse)
    requires
        total_points(questions_view(config.questions@)) <= u8::MAX,
    ensures
        (r.status, r.score, r.message@) == evaluation(
            questions_view(config.questions@),
            submission@,
            config.message.correct@,
            config.message.incorrect@,
            flag@,
            config.general.return_score,
        ),
        !config.general.return_score ==> r.score is None,
{
    evaluate(&config.questions, submission, flag, &config.message, config.general.return_score)
}

proof fn lemma_earned_all_correct(qs: Seq<QuestionView>, sub: Seq<(Seq<char>, Seq<char>)>)
    requires
        all_correct(qs, sub),
    ensures
        earned(qs, sub) == total_points(qs),
    decreases qs.len(),
{
    if qs.len() > 0 {
        let init = qs.drop_last();
        assert forall|i: int| 0 <= i < init.len() implies #[trigger] is_correct(init[i], sub) by {
            assert(is_correct(qs[i], sub));
        }
        assert(is_correct(qs[qs.len() - 1], sub));
        lemma_earned_all_correct(init, sub);
    }
}

/// A submission that gives an accepted answer to every question passes, and
/// its score is the sum of the points of all questions.
pub proof fn lemma_accepted_answers_pass(qs: Seq<QuestionView>, sub: Seq<(Seq<char>, Seq<char>)>)
    requires
        forall|i: int|
            0 <= i < qs.len() ==> match #[trigger] answer_for(sub, qs[i].id) {
                Some(a) => qs[i].answers.contains(a),
                None => false,
            },
    ensures
        all_correct(qs, sub),
        earned(qs, sub) == total_points(qs),
{
    assert forall|i: int| 0 <= i < qs.len() implies #[trigger] is_correct(qs[i], sub) by {
        assert(answer_for(sub, qs[i].id) == answer_for(sub, qs[i].id));
    }
    lemma_earned_all_correct(qs, sub);
}

/// A submission that leaves out the answer to one of the questions fails,
/// and gets the incorrect message.
pub proof fn lemma_missing_answer_fails(
    qs: Seq<QuestionView>,
    sub: Seq<(Seq<char>, Seq<char>)>,
    k: int,
    correct: Seq<char>,
    incorrect: Seq<char>,
    flag: Seq<char>,
    return_score: bool,
)
    requires
        0 <= k < qs.len(),
        answer_for(sub, qs[k].id) is None,
    ensures
        !all_correct(qs, sub),
        !evaluation(qs, sub, correct, incorrect, flag, return_score).0,
        evaluation(qs, sub, correct, incorrect, flag, return_score).2 == incorrect,
{
    assert(!is_correct(qs[k], sub));
}

/// With score visibility off, no score is given, whether the submission
/// passes or not.
pub proof fn lemma_score_hidden(
    qs: Seq<QuestionView>,
    sub: Seq<(Seq<char>, Seq<char>)>,
    correct: Seq<char>,
    incorrect: Seq<char>,
    flag: Seq<char>,
)
    ensures
        evaluation(qs, sub, correct, incorrect, flag, false).1 is None,
{
}

/// Where the success template holds the placeholder exactly once, the flag
/// takes its place and the rest of the template is kept as it is.
pub proof fn lemma_flag_replaces_placeholder(template: Seq<char>, flag: Seq<char>, i: int)
    requires
        occurs_at(template, placeholder(), i),
        forall|j: int| j != i ==> !occurs_at(template, placeholder(), j),
    ensures
        success_message(template, flag) == template.subrange(0, i) + flag + template.subrange(
            i + placeholder().len(),
            template.len() as int,
        ),
{
    lemma_replaced_single_occurrence(template, placeholder(), flag, i);
}

/// The placeholder occurs in `t1 + placeholder() + t2` only where it was
/// put, when it occurs in neither `t1` nor `t2`.
#[verifier::rlimit(40)]
proof fn lemma_placeholder_occurs_once(t1: Seq<char>, t2: Seq<char>)
    requires
        forall|j: int| !occurs_at(t1, placeholder(), j),
        forall|j: int| !occurs_at(t2, placeholder(), j),
    ensures
        occurs_at(t1 + placeholder() + t2, placeholder(), t1.len() as int),
        forall|j: int| j != t1.len() ==> !occurs_at(t1 + placeholder() + t2, placeholder(), j),
{
    let p = placeholder();
    let s = t1 + p + t2;
    let n = t1.len() as int;
    assert(p[0] == '$' && p[1] == 'F' && p[2] == 'L' && p[3] == 'A' && p[4] == 'G');
    assert(s.subrange(n, n + 5) =~= p);
    assert forall|j: int| j != n implies !occurs_at(s, p, j) by {
        if occurs_at(s, p, j) {
            let w = s.subrange(j, j + 5);
            assert(w == p);
            if j + 5 <= n {
                assert(t1.subrange(j, j + 5) =~= w);
                assert(occurs_at(t1, p, j));
            } else if j < n {
                let k = n - j;
                assert(w[k] == s[n]);
                assert(s[n] == p[0]);
                assert(p[k] != '$');
            } else if j < n + 5 {
                assert(w[0] == s[j]);
                assert(s[j] == p[j - n]);
                assert(p[j - n] != '$');
            } else {
                assert(t2.subrange(j - n - 5, j - n) =~= w);
                assert(occurs_at(t2, p, j - n - 5));
            }
        }
    }
}

/// When every question is answered with an accepted answer and the success
/// template holds the placeholder once, between texts `t1` and `t2` that do
/// not hold it, the message is `t1`, the flag, then `t2`.
pub proof fn lemma_success_message_holds_flag(
    qs: Seq<QuestionView>,
    sub: Seq<(Seq<char>, Seq<char>)>,
    t1: Seq<char>,
    t2: Seq<char>,
    incorrect: Seq<char>,
    flag: Seq<char>,
    return_score: bool,
)
    requires
        forall|i: int|
            0 <= i < qs.len() ==> match #[trigger] answer_for(sub, qs[i].id) {
                Some(a) => qs[i].answers.contains(a),
                None => false,
            },
        forall|j: int| !occurs_at(t1, placeholder(), j),
        forall|j: int| !occurs_at(t2, placeholder(), j),
    ensures
        evaluation(qs, sub, t1 + placeholder() + t2, incorrect, flag, return_score).0,
        evaluation(qs, sub, t1 + placeholder() + t2, incorrect, flag, return_score).2 == t1 + flag + t2,
{
    lemma_accepted_answers_pass(qs, sub);
    lemma_placeholder_occurs_once(t1, t2);
    let s = t1 + placeholder() + t2;
    lemma_flag_replaces_placeholder(s, flag, t1.len() as int);
    assert(s.subrange(0, t1.len() as int) =~= t1);
    assert(s.subrange(t1.len() + 5 as int, s.len() as int) =~= t2);
}

} // verus!
