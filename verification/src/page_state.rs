//! The page-ready structures: tallies, the summary of the index page and the
//! state of a part page.

use crate::placement::PlaceBucket;
use vstd::prelude::*;

verus! {

/// Counts of the questions of one part.
#[derive(Clone, Copy, Debug, PartialEq, Eq)]
pub struct TestPartTally {
    pub answered_q: usize,
    pub total_q: usize,
    pub answered_good_q: usize,
    pub answered_bad_q: usize,
}

/// The counts of a tally as numbers.
pub struct TallyView {
    pub answered: nat,
    pub total: nat,
    pub correct: nat,
    pub incorrect: nat,
}

impl View for TestPartTally {
    type V = TallyView;

    open spec fn view(&self) -> TallyView {
        TallyView {
            answered: self.answered_q as nat,
            total: self.total_q as nat,
            correct: self.answered_good_q as nat,
            incorrect: self.answered_bad_q as nat,
        }
    }
}

impl TestPartTally {
    /// A tally of the given counts.
    pub fn new(
        answered_q: usize,
        total_q: usize,
        answered_good_q: usize,
        answered_bad_q: usize,
    ) -> (tally: Self)
        ensures
            tally.answered_q == answered_q,
            tally.total_q == total_q,
            tally.answered_good_q == answered_good_q,
            tally.answered_bad_q == answered_bad_q,
    {
        Self { answered_q, total_q, answered_good_q, answered_bad_q }
    }
}

/// The line of one part on the index page.
#[derive(Clone, Debug)]
pub struct TestStateMainPageElem {
    pub test_id: String,
    pub pe_id: String,
    pub pe_date: String,
    pub answered_q: usize,
    pub total_q: usize,
    pub answered_good_q: usize,
    pub answered_bad_q: usize,
}

/// What a line of the index page holds.
pub struct MainPageElemView {
    pub test_id: Seq<char>,
    pub pe_id: Seq<char>,
    pub pe_date: Seq<char>,
    pub answered: nat,
    pub total: nat,
    pub correct: nat,
    pub incorrect: nat,
}

impl View for TestStateMainPageElem {
    type V = MainPageElemView;

    open spec fn view(&self) -> MainPageElemView {
        MainPageElemView {
            test_id: self.test_id@,
            pe_id: self.pe_id@,
            pe_date: self.pe_date@,
            answered: self.answered_q as nat,
            total: self.total_q as nat,
            correct: self.answered_good_q as nat,
            incorrect: self.answered_bad_q as nat,
        }
    }
}

/// The views of the lines of the index page.
pub open spec fn elems_view(elems: Seq<TestStateMainPageElem>) -> Seq<MainPageElemView> {
    Seq::new(elems.len(), |i: int| elems[i]@)
}

/// The sums over all parts, with the place they earn.
#[derive(Clone, Copy, Debug, PartialEq, Eq)]
pub struct TestStateMainPageTotals {
    pub answered_good_q: usize,
    pub answered_bad_q: usize,
    pub answered_total_q: usize,
    pub total_q: usize,
    pub place: usize,
    pub place_bucket: PlaceBucket,
}

/// What the totals of the index page hold.
pub struct TotalsView {
    pub correct: nat,
    pub incorrect: nat,
    pub answered: nat,
    pub total: nat,
    pub place: nat,
    pub place_bucket: PlaceBucket,
}

impl View for TestStateMainPageTotals {
    type V = TotalsView;

    open spec fn view(&self) -> TotalsView {
        TotalsView {
            correct: self.answered_good_q as nat,
            incorrect: self.answered_bad_q as nat,
            answered: self.answered_total_q as nat,
            total: self.total_q as nat,
            place: self.place as nat,
            place_bucket: self.place_bucket,
        }
    }
}

/// One choice of a question on a part page.
#[derive(Clone, Debug, Default)]
pub struct TestStatePartPageAnswerChoice {
    pub answer: String,
    pub correct: bool,
    pub user_selected: bool,
    pub choice_class: String,
    pub id: String,
}

/// What the state of a choice holds.
pub struct ChoiceStateView {
    pub answer: Seq<char>,
    pub correct: bool,
    pub user_selected: bool,
    pub choice_class: Seq<char>,
    pub id: Seq<char>,
}

impl View for TestStatePartPageAnswerChoice {
    type V = ChoiceStateView;

    open spec fn view(&self) -> ChoiceStateView {
        ChoiceStateView {
            answer: self.answer@,
            correct: self.correct,
            user_selected: self.user_selected,
            choice_class: self.choice_class@,
            id: self.id@,
        }
    }
}

/// The views of the lettered choices of a question on a part page.
pub open spec fn choice_states_view(choices: Seq<(char, TestStatePartPageAnswerChoice)>) -> Seq<
    (char, ChoiceStateView),
> {
    Seq::new(choices.len(), |i: int| (choices[i].0, choices[i].1@))
}

/// One question on a part page.
#[derive(Clone, Debug, Default)]
pub struct TestStatePartPageQuestion {
    pub id: String,
    pub question: String,
    pub choices: Vec<(char, TestStatePartPageAnswerChoice)>,
    pub user_answer: Option<char>,
    pub canceled: bool,
}

/// What the state of a question holds.
pub struct QuestionStateView {
    pub id: Seq<char>,
    pub question: Seq<char>,
    pub choices: Seq<(char, ChoiceStateView)>,
    pub user_answer: Option<char>,
    pub canceled: bool,
}

impl View for TestStatePartPageQuestion {
    type V = QuestionStateView;

    open spec fn view(&self) -> QuestionStateView {
        QuestionStateView {
            id: self.id@,
            question: self.question@,
            choices: choice_states_view(self.choices@),
            user_answer: self.user_answer,
            canceled: self.canceled,
        }
    }
}

/// The views of the questions of a section on a part page.
pub open spec fn question_states_view(questions: Seq<TestStatePartPageQuestion>) -> Seq<
    QuestionStateView,
> {
    Seq::new(questions.len(), |i: int| questions[i]@)
}

/// One section on a part page.
#[derive(Clone, Debug, Default)]
pub struct TestStatePartPageSection {
    pub introduction: String,
    pub questions: Vec<TestStatePartPageQuestion>,
}

/// What the state of a section holds.
pub struct SectionStateView {
    pub introduction: Seq<char>,
    pub questions: Seq<QuestionStateView>,
}

impl View for TestStatePartPageSection {
    type V = SectionStateView;

    open spec fn view(&self) -> SectionStateView {
        SectionStateView {
            introduction: self.introduction@,
            questions: question_states_view(self.questions@),
        }
    }
}

/// The views of the sections of a part page.
pub open spec fn section_states_view(sections: Seq<TestStatePartPageSection>) -> Seq<
    SectionStateView,
> {
    Seq::new(sections.len(), |i: int| sections[i]@)
}

/// A part page: the introduction, then the sections in display order.
#[derive(Clone, Debug, Default)]
pub struct TestStatePartPage {
    pub introduction: String,
    pub sections: Vec<TestStatePartPageSection>,
}

/// What the state of a part page holds.
pub struct PartStateView {
    pub introduction: Seq<char>,
    pub sections: Seq<SectionStateView>,
}

impl View for TestStatePartPage {
    type V = PartStateView;

    open spec fn view(&self) -> PartStateView {
        PartStateView {
            introduction: self.introduction@,
            sections: section_states_view(self.sections@),
        }
    }
}

} // verus!
