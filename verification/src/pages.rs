//! What each page is rendered from.

use crate::page_state::{TestStateMainPageElem, TestStateMainPageTotals, TestStatePartPage};
use vstd::prelude::*;

verus! {

/// Error page - a description of what went wrong
#[derive(Debug)]
pub struct ErrorPage {
    pub description: String,
}

impl ErrorPage {
    /// The error page with the given description.
    pub fn new(description: String) -> (page: Self)
        ensures
            page.description == description,
    {
        Self { description }
    }
}

/// Index page - list of parts
pub struct Index<'a> {
    pub tests_state: &'a [TestStateMainPageElem],
    pub totals: &'a TestStateMainPageTotals,
    pub count_canceled: bool,
    pub giga_test_finished: bool,
}

impl<'a> Index<'a> {
    /// The index page for the given lines, totals and settings.
    pub fn new(
        tests_state: &'a [TestStateMainPageElem],
        totals: &'a TestStateMainPageTotals,
        count_canceled: bool,
        giga_test_finished: bool,
    ) -> (page: Self)
        ensures
            page.tests_state == tests_state,
            page.totals == totals,
            page.count_canceled == count_canceled,
            page.giga_test_finished == giga_test_finished,
    {
        Self { tests_state, totals, count_canceled, giga_test_finished }
    }
}

/// Part page - introduction and questions
pub struct Part<'a> {
    pub part_state: &'a TestStatePartPage,
    pub giga_test_finished: bool,
}

impl<'a> Part<'a> {
    /// The page of the part in the given state.
    pub fn new(part_state: &'a TestStatePartPage, giga_test_finished: bool) -> (page: Self)
        ensures
            page.part_state == part_state,
            page.giga_test_finished == giga_test_finished,
    {
        Self { part_state, giga_test_finished }
    }
}

/// About page - static text
pub struct About {}

impl About {
    /// The about page.
    pub fn new() -> (page: Self) {
        Self {  }
    }
}

} // verus!
