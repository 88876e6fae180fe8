//! Photo engine: the layer document, its edit history and the decisions
//! of the editing worker, with their contracts.

pub mod blend;
pub mod geometry;
pub mod raster;
pub mod params;
pub mod ids;
pub mod model;
pub mod forest;
pub mod document;
pub mod copying;
pub mod layer_edits;
pub mod search;
pub mod document_edits;
pub mod document_filters;
pub mod document_attributes;
pub mod command;
pub mod document_queries;
pub mod document_checks;
pub mod text;
pub mod worker;
pub mod interface;
pub mod edit_scope;
pub mod shell;
pub mod stacking;
pub mod appearance_cache;
pub mod coverage;
pub mod occurrences;
