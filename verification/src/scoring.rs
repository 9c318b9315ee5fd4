//! Tallies of answered, correct and incorrect questions, per part and over
//! the whole test, and the summary of the index page.

use crate::models::{
    part_questions, question_refs_view, Question, QuestionView, Test, TestPart, TestPartView,
    UserResponse, UserResponseData,
};
use crate::page_state::{
    elems_view, MainPageElemView, TallyView, TestPartTally, TestStateMainPageElem,
    TestStateMainPageTotals, TotalsView,
};
use crate::placement::{bucket_of, get_user_place, user_place, PlaceBucket};
use crate::text::str_equal;
use vstd::prelude::*;

verus! {

/// A question is shown and counted unless it is canceled and canceled
/// questions are left out.
pub open spec fn shown(count_canceled: bool, question: QuestionView) -> bool {
    count_canceled || !question.canceled
}

/// The stored answer is the one that was correct when it was stored.
pub open spec fn answered_right(response: UserResponse) -> bool {
    response.correct_answer == Some(response.user_answer)
}

/// The test for the questions that count.
pub open spec fn is_shown(count_canceled: bool) -> spec_fn(QuestionView) -> bool {
    |q: QuestionView| shown(count_canceled, q)
}

/// The test for the questions that count and were answered correctly.
pub open spec fn is_good(responses: Map<Seq<char>, UserResponse>, count_canceled: bool) -> spec_fn(
    QuestionView,
) -> bool {
    |q: QuestionView|
        shown(count_canceled, q) && responses.contains_key(q.id) && answered_right(responses[q.id])
}

/// The test for the questions that count and were answered incorrectly.
pub open spec fn is_bad(responses: Map<Seq<char>, UserResponse>, count_canceled: bool) -> spec_fn(
    QuestionView,
) -> bool {
    |q: QuestionView|
        shown(count_canceled, q) && responses.contains_key(q.id) && !answered_right(
            responses[q.id],
        )
}

/// The tally of a list of questions against the stored answers.
pub open spec fn tally_of_questions(
    questions: Seq<QuestionView>,
    responses: Map<Seq<char>, UserResponse>,
    count_canceled: bool,
) -> TallyView {
    let correct = questions.filter(is_good(responses, count_canceled)).len();
    let incorrect = questions.filter(is_bad(responses, count_canceled)).len();
    TallyView {
        answered: correct + incorrect,
        total: questions.filter(is_shown(count_canceled)).len(),
        correct,
        incorrect,
    }
}

/// The tally of one part.
pub open spec fn tally_of(
    part: TestPartView,
    responses: Map<Seq<char>, UserResponse>,
    count_canceled: bool,
) -> TallyView {
    tally_of_questions(part_questions(part), responses, count_canceled)
}

/// What filtering does to a list with one more element.
pub proof fn lemma_filter_push<A>(s: Seq<A>, x: A, pred: spec_fn(A) -> bool)
    ensures
        s.push(x).filter(pred) == if pred(x) {
            s.filter(pred).push(x)
        } else {
            s.filter(pred)
        },
{
    reveal(Seq::filter);
    assert(s.push(x).drop_last() =~= s);
}

/// Tells whether a question is shown and counted.
pub fn display_canceled_question(count_canceled: bool, question: &Question) -> (display: bool)
    ensures
        display == shown(count_canceled, question@),
{
    count_canceled || !question.canceled
}

/// Tells whether a stored answer is the correct one.
pub fn response_is_correct(response: &UserResponse) -> (right: bool)
    ensures
        right == answered_right(*response),
{
    match response.correct_answer {
        Some(letter) => letter == response.user_answer,
        None => false,
    }
}

/// Counts the questions of a part: those that count, and among them those
/// answered correctly and incorrectly.
pub fn tally_test_part(
    test_part: &TestPart,
    test_responses: &UserResponseData,
    count_canceled: bool,
) -> (tally: TestPartTally)
    ensures
        tally@ == tally_of(test_part@, test_responses.map(), count_canceled),
        tally.answered_q == tally.answered_good_q + tally.answered_bad_q,
        tally.answered_q <= tally.total_q,
{
    let questions = test_part.get_questions();
    let ghost all = part_questions(test_part@);
    let ghost responses = test_responses.map();
    let mut total_q: usize = 0;
    let mut answered_good_q: usize = 0;
    let mut answered_bad_q: usize = 0;
    let mut i: usize = 0;
    proof {
        reveal(Seq::filter);
    }
    while i < questions.len()
        invariant
            i <= questions@.len(),
            question_refs_view(questions@) == all,
            responses == test_responses.map(),
            total_q == all.take(i as int).filter(is_shown(count_canceled)).len(),
            answered_good_q == all.take(i as int).filter(is_good(responses, count_canceled)).len(),
            answered_bad_q == all.take(i as int).filter(is_bad(responses, count_canceled)).len(),
            answered_good_q + answered_bad_q <= total_q <= i,
        decreases questions@.len() - i,
    {
        let question = questions[i];
        proof {
            assert(all.take(i + 1) =~= all.take(i as int).push(all[i as int]));
            lemma_filter_push(all.take(i as int), all[i as int], is_shown(count_canceled));
            let good = is_good(responses, count_canceled);
            let bad = is_bad(responses, count_canceled);
            lemma_filter_push(all.take(i as int), all[i as int], good);
            lemma_filter_push(all.take(i as int), all[i as int], bad);
        }
        if display_canceled_question(count_canceled, question) {
            total_q = total_q + 1;
            match test_responses.get(question.id.as_str()) {
                Some(user_response) => {
                    if response_is_correct(user_response) {
                        answered_good_q = answered_good_q + 1;
                    } else {
                        answered_bad_q = answered_bad_q + 1;
                    }
                },
                None => {},
            }
        }
        i = i + 1;
    }
    assert(all.take(i as int) =~= all);
    let answered_q = answered_good_q + answered_bad_q;
    TestPartTally::new(answered_q, total_q, answered_good_q, answered_bad_q)
}

/// The issue and the date of the magazine that printed the part `test_id`;
/// a part that is not in the table gets the placeholder for both.
pub open spec fn part_labels(test_id: Seq<char>) -> (Seq<char>, Seq<char>) {
    if test_id == "1"@ {
        ("37"@, "wrzesień 2000"@)
    } else if test_id == "2"@ {
        ("38"@, "październik 2000"@)
    } else if test_id == "3"@ {
        ("39"@, "listopad 2000"@)
    } else if test_id == "4"@ {
        ("40"@, "grudzień 2000"@)
    } else if test_id == "5"@ {
        ("41"@, "styczeń 2001"@)
    } else if test_id == "6"@ {
        ("42"@, "luty 2001"@)
    } else {
        ("none"@, "none"@)
    }
}

/// The line of the index page for the part `test_id` with the given tally.
pub open spec fn main_page_elem(test_id: Seq<char>, tally: TallyView) -> MainPageElemView {
    MainPageElemView {
        test_id,
        pe_id: part_labels(test_id).0,
        pe_date: part_labels(test_id).1,
        answered: tally.answered,
        total: tally.total,
        correct: tally.correct,
        incorrect: tally.incorrect,
    }
}

impl TestStateMainPageElem {
    /// Makes the line of the index page for one part from its tally.
    pub fn from(test_id: &str, test_part_tally: TestPartTally) -> (elem: Self)
        ensures
            elem@ == main_page_elem(test_id@, test_part_tally@),
    {
        let TestPartTally { answered_q, total_q, answered_good_q, answered_bad_q } =
            test_part_tally;
        let (pe_id, pe_date) = if str_equal(test_id, "1") {
            ("37", "wrzesień 2000")
        } else if str_equal(test_id, "2") {
            ("38", "październik 2000")
        } else if str_equal(test_id, "3") {
            ("39", "listopad 2000")
        } else if str_equal(test_id, "4") {
            ("40", "grudzień 2000")
        } else if str_equal(test_id, "5") {
            ("41", "styczeń 2001")
        } else if str_equal(test_id, "6") {
            ("42", "luty 2001")
        } else {
            ("none", "none")
        };
        Self {
            test_id: String::from_str(test_id),
            pe_id: String::from_str(pe_id),
            pe_date: String::from_str(pe_date),
            answered_q,
            total_q,
            answered_good_q,
            answered_bad_q,
        }
    }
}

/// The lines of the index page: one per part, in the order of the part ids.
pub open spec fn index_state(
    test: Seq<(Seq<char>, TestPartView)>,
    responses: Map<Seq<char>, UserResponse>,
    count_canceled: bool,
) -> Seq<MainPageElemView> {
    Seq::new(
        test.len(),
        |i: int| main_page_elem(test[i].0, tally_of(test[i].1, responses, count_canceled)),
    )
}

/// Tallies every part of the test, in the order of the part ids.
pub fn get_index_tests_state(
    test: &Test,
    test_responses: &UserResponseData,
    count_canceled: bool,
) -> (state: Vec<TestStateMainPageElem>)
    ensures
        elems_view(state@) == index_state(test@, test_responses.map(), count_canceled),
        forall|i: int|
            0 <= i < state@.len() ==> (#[trigger] state@[i]).answered_q == state@[i].answered_good_q
                + state@[i].answered_bad_q && state@[i].answered_q <= state@[i].total_q,
{
    let parts = test.iter();
    let n = parts.len();
    let mut state: Vec<TestStateMainPageElem> = Vec::new();
    let mut i: usize = 0;
    while i < n
        invariant
            i <= n,
            n == parts.keys().len(),
            n == parts.values().len(),
            parts.entries() == test@,
            state@.len() == i,
            forall|j: int|
                0 <= j < i ==> (#[trigger] state@[j])@ == index_state(
                    test@,
                    test_responses.map(),
                    count_canceled,
                )[j],
            forall|j: int|
                0 <= j < i ==> (#[trigger] state@[j]).answered_q == state@[j].answered_good_q
                    + state@[j].answered_bad_q && state@[j].answered_q <= state@[j].total_q,
        decreases n - i,
    {
        let test_id = parts.key_at(i);
        let part = parts.value_at(i);
        let part_tally = tally_test_part(part, test_responses, count_canceled);
        state.push(TestStateMainPageElem::from(test_id.as_str(), part_tally));
        i = i + 1;
    }
    state
}

/// The sum of the correct answers over the lines.
pub open spec fn sum_correct(elems: Seq<MainPageElemView>) -> nat
    decreases elems.len(),
{
    if elems.len() == 0 {
        0
    } else {
        sum_correct(elems.drop_last()) + elems.last().correct
    }
}

/// The sum of the incorrect answers over the lines.
pub open spec fn sum_incorrect(elems: Seq<MainPageElemView>) -> nat
    decreases elems.len(),
{
    if elems.len() == 0 {
        0
    } else {
        sum_incorrect(elems.drop_last()) + elems.last().incorrect
    }
}

/// The sum of the questions that count over the lines.
pub open spec fn sum_total(elems: Seq<MainPageElemView>) -> nat
    decreases elems.len(),
{
    if elems.len() == 0 {
        0
    } else {
        sum_total(elems.drop_last()) + elems.last().total
    }
}

/// The totals of the index page: the sums over the lines, and the place and
/// prize category that the sum of correct answers earns.
pub open spec fn totals_of(elems: Seq<MainPageElemView>) -> TotalsView {
    let correct = sum_correct(elems);
    let incorrect = sum_incorrect(elems);
    TotalsView {
        correct,
        incorrect,
        answered: correct + incorrect,
        total: sum_total(elems),
        place: user_place(correct as int) as nat,
        place_bucket: bucket_of(user_place(correct as int)),
    }
}

/// The sums of a prefix of the lines do not exceed the sums of all lines.
pub proof fn lemma_sums_monotonic(elems: Seq<MainPageElemView>, k: int)
    requires
        0 <= k <= elems.len(),
    ensures
        sum_correct(elems.take(k)) <= sum_correct(elems),
        sum_incorrect(elems.take(k)) <= sum_incorrect(elems),
        sum_total(elems.take(k)) <= sum_total(elems),
    decreases elems.len() - k,
{
    if k < elems.len() {
        lemma_sums_monotonic(elems, k + 1);
        assert(elems.take(k + 1).drop_last() =~= elems.take(k));
    } else {
        assert(elems.take(k) =~= elems);
    }
}

/// Sums the lines of the index page and places the sum of correct answers
/// among the historical results.
pub fn get_index_totals(index_tests_state: &[TestStateMainPageElem]) -> (totals:
    TestStateMainPageTotals)
    requires
        sum_correct(elems_view(index_tests_state@)) + sum_incorrect(elems_view(index_tests_state@))
            <= usize::MAX,
        sum_total(elems_view(index_tests_state@)) <= usize::MAX,
    ensures
        totals@ == totals_of(elems_view(index_tests_state@)),
{
    let ghost elems = elems_view(index_tests_state@);
    let mut answered_good_q: usize = 0;
    let mut answered_bad_q: usize = 0;
    let mut total_q: usize = 0;
    let mut i: usize = 0;
    while i < index_tests_state.len()
        invariant
            i <= index_tests_state@.len(),
            elems == elems_view(index_tests_state@),
            answered_good_q == sum_correct(elems.take(i as int)),
            answered_bad_q == sum_incorrect(elems.take(i as int)),
            total_q == sum_total(elems.take(i as int)),
            sum_correct(elems) + sum_incorrect(elems) <= usize::MAX,
            sum_total(elems) <= usize::MAX,
        decreases index_tests_state@.len() - i,
    {
        let x = &index_tests_state[i];
        proof {
            assert(elems.take(i + 1).drop_last() =~= elems.take(i as int));
            lemma_sums_monotonic(elems, i + 1);
        }
        answered_good_q = answered_good_q + x.answered_good_q;
        answered_bad_q = answered_bad_q + x.answered_bad_q;
        total_q = total_q + x.total_q;
        i = i + 1;
    }
    assert(elems.take(i as int) =~= elems);
    let answered_total_q = answered_good_q + answered_bad_q;
    let place = get_user_place(answered_good_q);
    let place_bucket = PlaceBucket::from_place(place);
    TestStateMainPageTotals {
        answered_good_q,
        answered_bad_q,
        answered_total_q,
        total_q,
        place,
        place_bucket,
    }
}

} // verus!
