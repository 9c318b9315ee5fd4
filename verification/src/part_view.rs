//! The state of a part page: the sections in display order, the questions
//! that are shown, and for every choice how it is to be highlighted.

use crate::models::{
    AnswerChoice, AnswerChoiceView, Question, QuestionView, Section, SectionView, TestPart,
    TestPartView, UserResponse, UserResponseData,
};
use crate::page_state::{
    question_states_view, ChoiceStateView, PartStateView, QuestionStateView, SectionStateView,
    TestStatePartPage, TestStatePartPageAnswerChoice, TestStatePartPageQuestion,
    TestStatePartPageSection,
};
use crate::scoring::{display_canceled_question, is_shown, lemma_filter_push};
use crate::text::{parse_i32, parse_int};
use vstd::prelude::*;

verus! {

/// The number by which a section is ordered for display: the number that
/// its key writes, or the largest number where the key writes none.
pub open spec fn section_sort_key(key: Seq<char>) -> int {
    match parse_i32(key) {
        Some(number) => number,
        None => i32::MAX as int,
    }
}

/// The sort keys of the sections of a part, in the order of their keys.
pub open spec fn section_sort_keys(sections: Seq<(Seq<char>, SectionView)>) -> Seq<int> {
    Seq::new(sections.len(), |i: int| section_sort_key(sections[i].0))
}

/// Where an entry with sort key `k` goes among entries sorted by sort key:
/// behind the last entry whose sort key is not greater.
pub open spec fn slot(sorted: Seq<(int, int)>, k: int) -> int
    decreases sorted.len(),
{
    if sorted.len() == 0 {
        0
    } else if sorted.last().0 <= k {
        sorted.len() as int
    } else {
        slot(sorted.drop_last(), k)
    }
}

/// The pairs of sort key and position, sorted by sort key; positions with
/// the same sort key keep their order.
pub open spec fn stable_sorted(keys: Seq<int>) -> Seq<(int, int)>
    decreases keys.len(),
{
    if keys.len() == 0 {
        Seq::empty()
    } else {
        let front = stable_sorted(keys.drop_last());
        front.insert(slot(front, keys.last()), (keys.last(), keys.len() - 1))
    }
}

/// One pair comes before another: by sort key, then by position.
pub open spec fn pair_before(a: (int, int), b: (int, int)) -> bool {
    a.0 < b.0 || (a.0 == b.0 && a.1 < b.1)
}

/// The position `i` occurs among the pairs.
pub open spec fn occurs(sorted: Seq<(int, int)>, i: int) -> bool {
    exists|r: int| 0 <= r < sorted.len() && (#[trigger] sorted[r]).1 == i
}

/// The slot for `k` parts entries with a sort key up to `k` from those with
/// a greater one.
pub proof fn lemma_slot(sorted: Seq<(int, int)>, k: int)
    requires
        forall|i: int, j: int|
            0 <= i < j < sorted.len() ==> pair_before(#[trigger] sorted[i], #[trigger] sorted[j]),
    ensures
        0 <= slot(sorted, k) <= sorted.len(),
        forall|i: int| 0 <= i < slot(sorted, k) ==> (#[trigger] sorted[i]).0 <= k,
        forall|i: int| slot(sorted, k) <= i < sorted.len() ==> (#[trigger] sorted[i]).0 > k,
    decreases sorted.len(),
{
    if sorted.len() > 0 {
        let last = sorted.len() - 1;
        if sorted.last().0 <= k {
            assert forall|i: int| 0 <= i < sorted.len() implies (#[trigger] sorted[i]).0 <= k by {
                if i < last {
                    assert(pair_before(sorted[i], sorted[last]));
                }
            }
        } else {
            let front = sorted.drop_last();
            assert forall|i: int, j: int| 0 <= i < j < front.len() implies pair_before(
                #[trigger] front[i],
                #[trigger] front[j],
            ) by {
                assert(front[i] == sorted[i] && front[j] == sorted[j]);
            }
            lemma_slot(front, k);
            assert forall|i: int| 0 <= i < slot(sorted, k) implies (#[trigger] sorted[i]).0
                <= k by {
                assert(front[i] == sorted[i]);
            }
            assert forall|i: int| slot(sorted, k) <= i < sorted.len() implies
                (#[trigger] sorted[i]).0 > k by {
                if i < last {
                    assert(front[i] == sorted[i]);
                }
            }
        }
    }
}

/// What the display order is: every position occurs in it with its sort
/// key, smaller sort keys come first, and positions with the same sort key
/// stay in their order.
pub proof fn lemma_stable_sorted(keys: Seq<int>)
    ensures
        stable_sorted(keys).len() == keys.len(),
        forall|r: int|
            0 <= r < keys.len() ==> 0 <= (#[trigger] stable_sorted(keys)[r]).1 < keys.len()
                && stable_sorted(keys)[r].0 == keys[stable_sorted(keys)[r].1],
        forall|r: int, t: int|
            0 <= r < t < keys.len() ==> pair_before(
                #[trigger] stable_sorted(keys)[r],
                #[trigger] stable_sorted(keys)[t],
            ),
        forall|i: int| 0 <= i < keys.len() ==> #[trigger] occurs(stable_sorted(keys), i),
    decreases keys.len(),
{
    if keys.len() > 0 {
        let front_keys = keys.drop_last();
        let front = stable_sorted(front_keys);
        let last = keys.len() - 1;
        let k = keys.last();
        lemma_stable_sorted(front_keys);
        lemma_slot(front, k);
        let p = slot(front, k);
        let all = stable_sorted(keys);
        assert forall|r: int| 0 <= r < keys.len() implies 0 <= (#[trigger] all[r]).1 < keys.len()
            && all[r].0 == keys[all[r].1] by {
            if r < p {
                assert(front_keys[front[r].1] == keys[front[r].1]);
            } else if r > p {
                assert(front_keys[front[r - 1].1] == keys[front[r - 1].1]);
            }
        }
        assert forall|r: int, t: int| 0 <= r < t < keys.len() implies pair_before(
            #[trigger] all[r],
            #[trigger] all[t],
        ) by {
            if t < p {
                assert(all[r] == front[r] && all[t] == front[t]);
            } else if t == p {
                assert(front[r].1 < last);
            } else if r < p {
                assert(all[r] == front[r] && all[t] == front[t - 1]);
            } else if r == p {
                assert(front[t - 1].0 > k);
            } else {
                assert(all[r] == front[r - 1] && all[t] == front[t - 1]);
            }
        }
        assert forall|i: int| 0 <= i < keys.len() implies #[trigger] occurs(all, i) by {
            if i == last {
                assert(all[p].1 == i);
            } else {
                assert(occurs(front, i));
                let r0 = choose|r: int| 0 <= r < front.len() && (#[trigger] front[r]).1 == i;
                if r0 < p {
                    assert(all[r0] == front[r0]);
                } else {
                    assert(all[r0 + 1] == front[r0]);
                }
            }
        }
    }
}

/// The positions of the sections of a part in display order.
pub open spec fn display_order(sections: Seq<(Seq<char>, SectionView)>) -> Seq<int> {
    Seq::new(sections.len(), |r: int| stable_sorted(section_sort_keys(sections))[r].1)
}

/// The class that highlights a choice: a correct choice is marked correct
/// whether selected or not, a wrong choice is marked only when selected.
pub open spec fn highlight_class(correct: bool, user_selected: bool) -> Seq<char> {
    if correct {
        "correct"@
    } else if user_selected {
        "incorrect"@
    } else {
        ""@
    }
}

/// The id of a choice on the page: the question id, an underscore and the
/// letter of the choice.
pub open spec fn dom_id(question_id: Seq<char>, letter: char) -> Seq<char> {
    question_id.push('_').push(letter)
}

/// The state of one choice of a question on the page.
pub open spec fn choice_state(
    question_id: Seq<char>,
    letter: char,
    choice: AnswerChoiceView,
    user_answer: Option<char>,
) -> ChoiceStateView {
    let user_selected = user_answer == Some(letter);
    ChoiceStateView {
        answer: choice.answer,
        correct: choice.correct,
        user_selected,
        choice_class: highlight_class(choice.correct, user_selected),
        id: dom_id(question_id, letter),
    }
}

/// The letter that the user chose for a question, if an answer is stored.
pub open spec fn selected_letter(
    question_id: Seq<char>,
    responses: Map<Seq<char>, UserResponse>,
) -> Option<char> {
    if responses.contains_key(question_id) {
        Some(responses[question_id].user_answer)
    } else {
        None
    }
}

/// The state of one question on the page.
pub open spec fn question_state(
    question: QuestionView,
    responses: Map<Seq<char>, UserResponse>,
) -> QuestionStateView {
    let user_answer = selected_letter(question.id, responses);
    QuestionStateView {
        id: question.id,
        question: question.question,
        choices: Seq::new(
            question.choices.len(),
            |i: int|
                (
                    question.choices[i].0,
                    choice_state(
                        question.id,
                        question.choices[i].0,
                        question.choices[i].1,
                        user_answer,
                    ),
                ),
        ),
        user_answer,
        canceled: question.canceled,
    }
}

/// Turns a question into its state on the page.
pub open spec fn to_question_state(responses: Map<Seq<char>, UserResponse>) -> spec_fn(
    QuestionView,
) -> QuestionStateView {
    |q: QuestionView| question_state(q, responses)
}

/// The state of one section on the page: its questions that are shown, in
/// their order.
pub open spec fn section_state(
    section: SectionView,
    responses: Map<Seq<char>, UserResponse>,
    count_canceled: bool,
) -> SectionStateView {
    SectionStateView {
        introduction: section.introduction,
        questions: section.questions.filter(is_shown(count_canceled)).map_values(
            to_question_state(responses),
        ),
    }
}

/// The state of a part page: its sections in display order.
pub open spec fn part_state(
    part: TestPartView,
    responses: Map<Seq<char>, UserResponse>,
    count_canceled: bool,
) -> PartStateView {
    PartStateView {
        introduction: part.introduction,
        sections: Seq::new(
            part.sections.len(),
            |r: int|
                section_state(
                    part.sections[display_order(part.sections)[r]].1,
                    responses,
                    count_canceled,
                ),
        ),
    }
}

/// Makes the state of one choice: whether the user selected it, its
/// highlight class and its id on the page.
pub fn generate_answers(
    question_id: &str,
    answer_id: char,
    answer: &AnswerChoice,
    user_answer: Option<char>,
) -> (lettered: (char, TestStatePartPageAnswerChoice))
    ensures
        lettered.0 == answer_id,
        lettered.1@ == choice_state(question_id@, answer_id, answer@, user_answer),
{
    let user_selected = match user_answer {
        Some(r) => r == answer_id,
        None => false,
    };
    let choice_class = if answer.correct {
        "correct"
    } else if user_selected {
        "incorrect"
    } else {
        ""
    };
    let mut id = String::from_str(question_id);
    id.push('_');
    id.push(answer_id);
    let obj = TestStatePartPageAnswerChoice {
        answer: answer.answer.clone(),
        correct: answer.correct,
        user_selected,
        choice_class: String::from_str(choice_class),
        id,
    };
    (answer_id, obj)
}

/// Makes the state of one question from the stored answers.
pub fn generate_questions(question: &Question, test_responses: &UserResponseData) -> (state:
    TestStatePartPageQuestion)
    ensures
        state@ == question_state(question@, test_responses.map()),
{
    let user_answer = match test_responses.get(question.id.as_str()) {
        Some(r) => Some(r.user_answer),
        None => None,
    };
    let mut new_answers: Vec<(char, TestStatePartPageAnswerChoice)> = Vec::new();
    let mut i: usize = 0;
    while i < question.choices.len()
        invariant
            i <= question.choices@.len(),
            new_answers@.len() == i,
            user_answer == selected_letter(question@.id, test_responses.map()),
            forall|j: int|
                0 <= j < i ==> (#[trigger] new_answers@[j]).0 == question.choices@[j].0
                    && new_answers@[j].1@ == choice_state(
                    question@.id,
                    question.choices@[j].0,
                    question.choices@[j].1@,
                    user_answer,
                ),
        decreases question.choices@.len() - i,
    {
        let choice = &question.choices[i];
        new_answers.push(generate_answers(question.id.as_str(), choice.0, &choice.1, user_answer));
        i = i + 1;
    }
    let state = TestStatePartPageQuestion {
        id: question.id.clone(),
        question: question.question.clone(),
        choices: new_answers,
        user_answer,
        canceled: question.canceled,
    };
    assert(state@.choices =~= question_state(question@, test_responses.map()).choices);
    state
}

/// Makes the state of one section: the questions that are shown.
pub fn generate_sections(
    section: &Section,
    test_responses: &UserResponseData,
    count_canceled: bool,
) -> (state: TestStatePartPageSection)
    ensures
        state@ == section_state(section@, test_responses.map(), count_canceled),
{
    let ghost all = section@.questions;
    let ghost pred = is_shown(count_canceled);
    let ghost to_state = to_question_state(test_responses.map());
    let mut new_questions: Vec<TestStatePartPageQuestion> = Vec::new();
    let mut i: usize = 0;
    proof {
        reveal(Seq::filter);
    }
    while i < section.questions.len()
        invariant
            i <= section.questions@.len(),
            all == section@.questions,
            pred == is_shown(count_canceled),
            to_state == to_question_state(test_responses.map()),
            question_states_view(new_questions@) == all.take(i as int).filter(pred).map_values(
                to_state,
            ),
        decreases section.questions@.len() - i,
    {
        let question = &section.questions[i];
        let ghost shown_before = all.take(i as int).filter(pred);
        proof {
            assert(all.take(i + 1) =~= all.take(i as int).push(all[i as int]));
            lemma_filter_push(all.take(i as int), all[i as int], pred);
        }
        if display_canceled_question(count_canceled, question) {
            new_questions.push(generate_questions(question, test_responses));
            assert(shown_before.push(all[i as int]).map_values(to_state)
                =~= shown_before.map_values(to_state).push(to_state(all[i as int])));
        }
        i = i + 1;
    }
    assert(all.take(i as int) =~= all);
    TestStatePartPageSection {
        introduction: section.introduction.clone(),
        questions: new_questions,
    }
}

/// The views of pairs of sort key and position.
pub open spec fn pairs_view(pairs: Seq<(i32, usize)>) -> Seq<(int, int)> {
    Seq::new(pairs.len(), |i: int| (pairs[i].0 as int, pairs[i].1 as int))
}

/// Orders the sections of a part for display: by the number that the
/// section key writes, keys without a number last, ties in key order.
pub fn sorted_sections(test_part: &TestPart) -> (sorted: Vec<(i32, usize)>)
    ensures
        pairs_view(sorted@) == stable_sorted(section_sort_keys(test_part@.sections)),
        sorted@.len() == test_part@.sections.len(),
        forall|r: int| 0 <= r < sorted@.len() ==> (#[trigger] sorted@[r]).1 < sorted@.len(),
{
    let n = test_part.sections.len();
    let ghost keys = section_sort_keys(test_part@.sections);
    let mut sorted: Vec<(i32, usize)> = Vec::new();
    let mut i: usize = 0;
    proof {
        assert(pairs_view(sorted@) =~= stable_sorted(keys.take(0)));
    }
    while i < n
        invariant
            i <= n,
            n == test_part.sections.keys().len(),
            n == test_part@.sections.len(),
            keys == section_sort_keys(test_part@.sections),
            sorted@.len() == i,
            pairs_view(sorted@) == stable_sorted(keys.take(i as int)),
            forall|r: int| 0 <= r < sorted@.len() ==> (#[trigger] sorted@[r]).1 < i,
        decreases n - i,
    {
        let key = test_part.sections.key_at(i);
        let number: i32 = match parse_int(key.as_str()) {
            Some(v) => v,
            None => i32::MAX,
        };
        let ghost front = pairs_view(sorted@);
        let mut p: usize = sorted.len();
        assert(front.take(p as int) =~= front);
        while p > 0 && sorted[p - 1].0 > number
            invariant
                p <= sorted@.len(),
                front == pairs_view(sorted@),
                slot(front, number as int) == slot(front.take(p as int), number as int),
            decreases p,
        {
            proof {
                assert(front.take(p as int).drop_last() =~= front.take(p - 1));
            }
            p = p - 1;
        }
        proof {
            if p > 0 {
                assert(front.take(p as int).last() == front[p - 1]);
            }
            assert(slot(front, number as int) == p);
            let upto = keys.take(i + 1);
            assert(upto.drop_last() =~= keys.take(i as int));
        }
        sorted.insert(p, (number, i));
        proof {
            assert(pairs_view(sorted@) =~= front.insert(p as int, (number as int, i as int)));
        }
        i = i + 1;
    }
    assert(keys.take(n as int) =~= keys);
    sorted
}

/// Makes the state of a part page: the introduction, and the sections in
/// display order, each with the questions that are shown.
pub fn get_part_state(
    test_part: &TestPart,
    test_responses: &UserResponseData,
    count_canceled: bool,
) -> (state: TestStatePartPage)
    ensures
        state@ == part_state(test_part@, test_responses.map(), count_canceled),
{
    let sorted = sorted_sections(test_part);
    let n = test_part.sections.len();
    let mut new_sections: Vec<TestStatePartPageSection> = Vec::new();
    let mut r: usize = 0;
    while r < sorted.len()
        invariant
            r <= sorted@.len(),
            sorted@.len() == n,
            n == test_part.sections.values().len(),
            n == test_part@.sections.len(),
            pairs_view(sorted@) == stable_sorted(section_sort_keys(test_part@.sections)),
            forall|t: int| 0 <= t < sorted@.len() ==> (#[trigger] sorted@[t]).1 < sorted@.len(),
            new_sections@.len() == r,
            forall|t: int|
                0 <= t < r ==> (#[trigger] new_sections@[t])@ == part_state(
                    test_part@,
                    test_responses.map(),
                    count_canceled,
                ).sections[t],
        decreases sorted@.len() - r,
    {
        let position = sorted[r].1;
        let section = test_part.sections.value_at(position);
        proof {
            assert(test_part@.sections[position as int].1 == section@);
        }
        new_sections.push(generate_sections(section, test_responses, count_canceled));
        r = r + 1;
    }
    let state = TestStatePartPage {
        introduction: test_part.introduction.clone(),
        sections: new_sections,
    };
    assert(state@.sections =~= part_state(
        test_part@,
        test_responses.map(),
        count_canceled,
    ).sections);
    state
}

} // verus!
