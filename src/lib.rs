//! The core of a terminal dashboard for a cluster-management HTTP API: the
//! data model, the network worker's decisions, the view-state engine (tree
//! flattening, filtering, sorting, selection) and the application state
//! machine that consumes worker responses and key presses.
pub mod api;
pub mod app;
pub mod instances;
pub mod models;
pub mod sorting;
pub mod text;
pub mod tree;
pub mod view;
