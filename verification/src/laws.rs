//! Laws that relate the operations of the library to each other.

use crate::models::{
    answers_of, choice_letter, correct_choice, first_correct_from, lemma_first_correct,
    load_test, question_id, AnswerChoiceView, QuestionView, RawTest, RawTestPartView,
    SectionView, Test, TestPartView, UserResponse, MAX_CHOICES,
};
use crate::part_view::{
    display_order, highlight_class, lemma_stable_sorted, occurs, pair_before, part_state,
    section_sort_key, section_sort_keys, stable_sorted,
};
use crate::responses::{merged, response_for};
use crate::scoring::{
    answered_right, index_state, is_bad, is_good, is_shown, lemma_filter_push, tally_of,
    tally_of_questions,
};
use vstd::prelude::*;

verus! {

/// Merging the same form a second time changes nothing.
pub proof fn law_merge_idempotent(
    existing: Map<Seq<char>, UserResponse>,
    form: Map<Seq<char>, Seq<char>>,
    answers: Map<Seq<char>, Option<char>>,
)
    ensures
        merged(merged(existing, form, answers), form, answers) == merged(existing, form, answers),
{
    assert(merged(merged(existing, form, answers), form, answers) =~= merged(
        existing,
        form,
        answers,
    ));
}

/// The last form merged decides the answer to a question: whatever was
/// stored or merged before, a field with a value leaves exactly the answer
/// that it submits.
pub proof fn law_merge_last_write_wins(
    existing: Map<Seq<char>, UserResponse>,
    earlier: Map<Seq<char>, Seq<char>>,
    form: Map<Seq<char>, Seq<char>>,
    answers: Map<Seq<char>, Option<char>>,
    question: Seq<char>,
)
    requires
        form.contains_key(question),
        form[question].len() > 0,
    ensures
        merged(merged(existing, earlier, answers), form, answers).contains_key(question),
        merged(merged(existing, earlier, answers), form, answers)[question] == response_for(
            question,
            form[question],
            answers,
        ),
        merged(merged(existing, earlier, answers), form, answers)[question].user_answer
            == form[question][0],
{
}

/// A field with an empty value, like a question that the form does not
/// mention, leaves what is stored for the question as it is.
pub proof fn law_merge_empty_value(
    existing: Map<Seq<char>, UserResponse>,
    form: Map<Seq<char>, Seq<char>>,
    answers: Map<Seq<char>, Option<char>>,
    question: Seq<char>,
)
    requires
        !form.contains_key(question) || form[question].len() == 0,
    ensures
        merged(existing, form, answers).contains_key(question) == existing.contains_key(question),
        existing.contains_key(question) ==> merged(existing, form, answers)[question]
            == existing[question],
{
}

/// A form in which every value is empty changes nothing at all.
pub proof fn law_merge_all_empty(
    existing: Map<Seq<char>, UserResponse>,
    form: Map<Seq<char>, Seq<char>>,
    answers: Map<Seq<char>, Option<char>>,
)
    requires
        forall|k: Seq<char>| form.contains_key(k) ==> (#[trigger] form[k]).len() == 0,
    ensures
        merged(existing, form, answers) == existing,
{
    assert(merged(existing, form, answers) =~= existing);
}

/// An answer to a question that the index does not know, or for which it
/// knows no correct choice, never counts as correct.
pub proof fn law_unknown_answer_is_wrong(
    answers: Map<Seq<char>, Option<char>>,
    question: Seq<char>,
    value: Seq<char>,
)
    requires
        !answers.contains_key(question) || answers[question] is None,
    ensures
        !answered_right(response_for(question, value, answers)),
{
}

/// The index knows exactly the ids of the questions, and where only one
/// question bears an id it holds the correct choice of that question.
pub proof fn law_answers_index(questions: Seq<QuestionView>, i: int)
    requires
        0 <= i < questions.len(),
    ensures
        answers_of(questions).contains_key(questions[i].id),
        forall|k: Seq<char>| #[trigger]
            answers_of(questions).contains_key(k) ==> exists|j: int|
                0 <= j < questions.len() && (#[trigger] questions[j]).id == k,
        (forall|j: int| i < j < questions.len() ==> (#[trigger] questions[j]).id != questions[i].id)
            ==> answers_of(questions)[questions[i].id] == correct_choice(questions[i].choices),
    decreases questions.len(),
{
    let front = questions.drop_last();
    let last = questions.len() - 1;
    assert forall|k: Seq<char>| #[trigger] answers_of(questions).contains_key(k) implies exists|
        j: int,
    |
        0 <= j < questions.len() && (#[trigger] questions[j]).id == k by {
        if k != questions[last].id {
            assert(answers_of(front).contains_key(k));
            if front.len() > 0 {
                law_answers_index(front, 0);
                let j = choose|j: int| 0 <= j < front.len() && (#[trigger] front[j]).id == k;
                assert(questions[j].id == k);
            }
        }
    }
    if i < last {
        law_answers_index(front, i);
        if forall|j: int| i < j < questions.len() ==> (#[trigger] questions[j]).id
            != questions[i].id {
            assert forall|j: int| i < j < front.len() implies (#[trigger] front[j]).id
                != front[i].id by {
                assert(front[j] == questions[j]);
            }
        }
    }
}

/// The correct choice of a question is its first choice marked correct;
/// there is none exactly where no choice is marked.
pub proof fn law_correct_choice(choices: Seq<(char, AnswerChoiceView)>)
    ensures
        correct_choice(choices) is None <==> forall|j: int|
            0 <= j < choices.len() ==> !(#[trigger] choices[j]).1.correct,
        correct_choice(choices) is Some ==> exists|i: int|
            0 <= i < choices.len() && (#[trigger] choices[i]).1.correct && correct_choice(choices)
                == Some(choices[i].0) && forall|j: int|
                0 <= j < i ==> !(#[trigger] choices[j]).1.correct,
{
    lemma_first_correct(choices, 0);
    let first = first_correct_from(choices, 0);
    if first < choices.len() {
        assert(choices[first].1.correct);
    }
}

/// Loading depends on the content of the source alone: two sources with
/// the same content load into tests with the same content.
pub proof fn law_load_deterministic(first: RawTest, second: RawTest, one: Test, other: Test)
    requires
        first@ == second@,
        one@ == load_test(first@),
        other@ == load_test(second@),
    ensures
        one@ == other@,
{
}

/// What loading gives each question: its text and canceled flag from the
/// source, an id made of the part id, the section key and its position, and
/// the first eight choices of the source under the letters of their
/// positions.
pub proof fn law_loaded_question(
    raw: Seq<(Seq<char>, RawTestPartView)>,
    part: int,
    section: int,
    question: int,
)
    requires
        0 <= part < raw.len(),
        0 <= section < raw[part].1.sections.len(),
        0 <= question < raw[part].1.sections[section].1.questions.len(),
    ensures
        load_test(raw).len() == raw.len(),
        load_test(raw)[part].0 == raw[part].0,
        load_test(raw)[part].1.sections.len() == raw[part].1.sections.len(),
        load_test(raw)[part].1.sections[section].0 == raw[part].1.sections[section].0,
        load_test(raw)[part].1.sections[section].1.questions.len()
            == raw[part].1.sections[section].1.questions.len(),
        ({
            let source = raw[part].1.sections[section].1.questions[question];
            let loaded = load_test(raw)[part].1.sections[section].1.questions[question];
            &&& loaded.id == question_id(
                raw[part].0,
                raw[part].1.sections[section].0,
                question as nat,
            )
            &&& loaded.question == source.question
            &&& loaded.canceled == source.canceled
            &&& loaded.choices.len() == if source.choices.len() <= MAX_CHOICES {
                source.choices.len()
            } else {
                MAX_CHOICES as nat
            }
            &&& forall|c: int|
                0 <= c < loaded.choices.len() ==> (#[trigger] loaded.choices[c]).0
                    == choice_letter(c) && loaded.choices[c].1 == source.choices[c]
        }),
{
}

/// The highlight class of a choice depends on two things only: a correct
/// choice is marked correct whether it was selected or not; a wrong choice
/// is marked incorrect where it was selected and not marked where it was
/// not. The three classes differ from each other.
pub proof fn law_highlight_class(correct: bool, user_selected: bool)
    ensures
        correct ==> highlight_class(correct, user_selected) == "correct"@,
        !correct && user_selected ==> highlight_class(correct, user_selected) == "incorrect"@,
        !correct && !user_selected ==> highlight_class(correct, user_selected)
            == Seq::<char>::empty(),
        "correct"@ != "incorrect"@,
        "correct"@ != Seq::<char>::empty(),
        "incorrect"@ != Seq::<char>::empty(),
{
    reveal_strlit("correct");
    reveal_strlit("incorrect");
    reveal_strlit("");
    assert("correct"@.len() == 7);
    assert("incorrect"@.len() == 9);
}

/// Every choice on a part page is highlighted by that rule, and is marked
/// as selected exactly where its letter is the stored answer to its
/// question.
pub proof fn law_part_page_highlights(
    part: TestPartView,
    responses: Map<Seq<char>, UserResponse>,
    count_canceled: bool,
    section: int,
    question: int,
    choice: int,
)
    requires
        0 <= section < part_state(part, responses, count_canceled).sections.len(),
        0 <= question < part_state(
            part,
            responses,
            count_canceled,
        ).sections[section].questions.len(),
        0 <= choice < part_state(
            part,
            responses,
            count_canceled,
        ).sections[section].questions[question].choices.len(),
    ensures
        ({
            let page = part_state(part, responses, count_canceled);
            let shown = page.sections[section].questions[question];
            let lettered = shown.choices[choice];
            &&& lettered.1.choice_class == highlight_class(
                lettered.1.correct,
                lettered.1.user_selected,
            )
            &&& lettered.1.user_selected == (shown.user_answer == Some(lettered.0))
            &&& shown.user_answer == if responses.contains_key(shown.id) {
                Some(responses[shown.id].user_answer)
            } else {
                None
            }
        }),
{
}

/// The display order of the sections of a part holds every section once:
/// sections whose keys write smaller numbers come first, and sections whose
/// keys write the same number, or none, stay in the order of their keys.
pub proof fn law_display_order(sections: Seq<(Seq<char>, SectionView)>)
    ensures
        display_order(sections).len() == sections.len(),
        forall|r: int|
            0 <= r < sections.len() ==> 0 <= #[trigger] display_order(sections)[r]
                < sections.len(),
        forall|r: int, t: int|
            0 <= r < t < sections.len() ==> pair_before(
                (
                    section_sort_key(sections[#[trigger] display_order(sections)[r]].0),
                    display_order(sections)[r],
                ),
                (
                    section_sort_key(sections[#[trigger] display_order(sections)[t]].0),
                    display_order(sections)[t],
                ),
            ),
        forall|i: int| 0 <= i < sections.len() ==> #[trigger] display_order(sections).contains(i),
{
    let keys = section_sort_keys(sections);
    let sorted = stable_sorted(keys);
    lemma_stable_sorted(keys);
    assert forall|r: int, t: int| 0 <= r < t < sections.len() implies pair_before(
        (
            section_sort_key(sections[#[trigger] display_order(sections)[r]].0),
            display_order(sections)[r],
        ),
        (
            section_sort_key(sections[#[trigger] display_order(sections)[t]].0),
            display_order(sections)[t],
        ),
    ) by {
        assert(sorted[t].0 == keys[sorted[t].1]);
    }
    assert forall|i: int| 0 <= i < sections.len() implies #[trigger] display_order(
        sections,
    ).contains(i) by {
        assert(occurs(sorted, i));
        let r = choose|r: int| 0 <= r < sorted.len() && (#[trigger] sorted[r]).1 == i;
        assert(display_order(sections)[r] == i);
    }
}

/// The line of a part on the index page shows the tally of that very part
/// with the same answers and the same setting, under the id of the part.
pub proof fn law_index_shows_part_tally(
    test: Seq<(Seq<char>, TestPartView)>,
    responses: Map<Seq<char>, UserResponse>,
    count_canceled: bool,
    part: int,
)
    requires
        0 <= part < test.len(),
    ensures
        index_state(test, responses, count_canceled).len() == test.len(),
        index_state(test, responses, count_canceled)[part].test_id == test[part].0,
        index_state(test, responses, count_canceled)[part].correct == tally_of(
            test[part].1,
            responses,
            count_canceled,
        ).correct,
        index_state(test, responses, count_canceled)[part].incorrect == tally_of(
            test[part].1,
            responses,
            count_canceled,
        ).incorrect,
        index_state(test, responses, count_canceled)[part].answered == tally_of(
            test[part].1,
            responses,
            count_canceled,
        ).answered,
        index_state(test, responses, count_canceled)[part].total == tally_of(
            test[part].1,
            responses,
            count_canceled,
        ).total,
{
}

/// In every tally the answered questions are the correct and the incorrect
/// ones together, and no more than the questions that count, which are no
/// more than all questions. With canceled questions counted, all count.
pub proof fn law_tally_bounds(
    questions: Seq<QuestionView>,
    responses: Map<Seq<char>, UserResponse>,
    count_canceled: bool,
)
    ensures
        tally_of_questions(questions, responses, count_canceled).answered == tally_of_questions(
            questions,
            responses,
            count_canceled,
        ).correct + tally_of_questions(questions, responses, count_canceled).incorrect,
        tally_of_questions(questions, responses, count_canceled).answered <= tally_of_questions(
            questions,
            responses,
            count_canceled,
        ).total,
        tally_of_questions(questions, responses, count_canceled).total <= questions.len(),
        count_canceled ==> tally_of_questions(questions, responses, count_canceled).total
            == questions.len(),
    decreases questions.len(),
{
    reveal(Seq::filter);
    if questions.len() > 0 {
        let front = questions.drop_last();
        let last = questions.last();
        law_tally_bounds(front, responses, count_canceled);
        lemma_filter_push(front, last, is_shown(count_canceled));
        lemma_filter_push(front, last, is_good(responses, count_canceled));
        lemma_filter_push(front, last, is_bad(responses, count_canceled));
    }
}

} // verus!
