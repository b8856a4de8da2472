//! Core of an interactive fuzzy chooser: given text candidates and a typed
//! query, it computes which characters of a candidate to highlight, which
//! window of an over-long candidate to display, how to split the displayed
//! text into styled runs, and how the selection and scroll position react to
//! navigation events against a ranked result list.

pub mod compose;
pub mod feed;
pub mod highlight;
pub mod nav;
pub mod text;
pub mod window;
