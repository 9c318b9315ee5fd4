//! Scoring and state projection for a multiple-choice quiz: loading the
//! question bank, merging submitted answers, tallying, placement among the
//! historical results, and the page-ready view structures.

pub mod app_state;
pub mod laws;
pub mod loading;
pub mod models;
pub mod page_state;
pub mod pages;
pub mod part_view;
pub mod placement;
pub mod responses;
pub mod scoring;
pub mod strmap;
pub mod text;
