//! Extraction of player statistics tables from box-score pages, per-category
//! schema discovery and rendering of schema-aligned rows.

pub mod capture;
pub mod text;
pub mod markup;
pub mod rows;
pub mod game;
pub mod aggregate;
pub mod pages;
pub mod batch;
