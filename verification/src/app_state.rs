//! What every request is served from: the loaded test and the index of its
//! correct answers, made once and only read afterwards.

use crate::models::{correct_answers, AnswersDB, Test};
use vstd::prelude::*;

verus! {

/// The loaded test with the index of its correct answers.
#[derive(Clone)]
pub struct AppState {
    pub giga_test: Test,
    pub questions_db: AnswersDB,
}

impl AppState {
    /// The index holds the correct answers of the test and nothing else.
    pub open spec fn consistent(&self) -> bool {
        self.questions_db.map() == correct_answers(self.giga_test@)
    }

    /// Makes the state for a test: the index of correct answers is derived
    /// from the test.
    pub fn new(giga_test: Test) -> (state: Self)
        ensures
            state.giga_test == giga_test,
            state.consistent(),
    {
        let questions_db = giga_test.get_correct_answers();
        AppState { giga_test, questions_db }
    }
}

} // verus!
