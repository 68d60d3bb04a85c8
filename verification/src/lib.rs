//! Checks marketing and interface text against seven hard constraints that
//! protect a reader's understanding and free choice.

pub mod constraint;
pub mod error;
pub mod report;
pub mod text;
pub mod model;
pub mod markdown;
pub mod sorting;
pub mod analysis;
pub mod pattern;
pub mod block;
pub mod document;
pub mod rule;
pub mod rules;
pub mod checker;
pub mod cli;
pub mod browser;
pub mod mcp;
