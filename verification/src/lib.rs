//! Compact binary model for a chess-opening statistics index: the header
//! codec that packs one (speed, rating group, game count) cell into a
//! minimal byte sequence, and the aggregate that merges per-cell statistics
//! and sampled game references.

pub mod lichess;
pub mod lila;
pub mod model;
