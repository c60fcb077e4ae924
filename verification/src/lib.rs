//! Core engine for building and evaluating attack/risk trees: a boolean
//! condition language resolved against nested project configurations, a
//! materialization step that computes node visibility, a cross-tree DAG
//! resolver that follows node references across tree boundaries, and an
//! append-only version history with single-step undo.
//!
//! Persistence, routing and authentication are outside collaborators: the
//! engine reaches them only through the [`database::TreeStore`] trait and
//! otherwise works on plain values.

pub mod auth;
pub mod database;
pub mod errors;
pub mod evalexpr_bridge;
pub mod expression_evaluator;
pub mod helpers;
pub mod history;
pub mod models;
