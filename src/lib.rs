//! Branching Ducci search on integer quadruples.
//!
//! A quadruple is stepped to its cyclic absolute differences. A step that
//! lands on one of three recognised end shapes (all zero, checker, ladder;
//! each up to rotation) closes the branch; any other result forks into two
//! fixed transpositions, and the search goes on down both.
pub mod quad;
pub mod classify;
pub mod search;
pub mod text;
