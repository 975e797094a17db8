//! Finds six five-letter guesses that draw a crewmate on a Wordle board.
//!
//! Scoring a guess against the target word colors each letter gray, yellow
//! or green. Six rows of such colors form a picture: this library scans an
//! ordered word list once, classifies every word's color row as one of five
//! shapes (background, head, eyes, body, legs), assembles candidates per
//! background color and mirror orientation, and reports the first complete
//! six-word board.

pub mod builder;
pub mod compute_sus;
pub mod context;
pub mod score;
