//! Verified core of a LaTeX teaching-material workshop: text utilities, pattern
//! cards, solution flows and document assembly.
pub mod text;
pub mod models;
pub mod pattern_card;
pub mod flow_headings;
pub mod flow_render;
pub mod flow_normalize;
pub mod flow_edit;
pub mod flow_teaching;
pub mod latex;
pub mod templates;
pub mod parts;
pub mod problems;
pub mod settings;
pub mod graph_integration;
pub mod patterns;
pub mod dispatch;
pub mod graphs;
pub mod tree;
pub mod search;
pub mod graph_web;
pub mod variants;
pub mod bank;
pub mod graphics;
pub mod backups;
pub mod compile;
pub mod graph_check;
pub mod sample;
