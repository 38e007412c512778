//! Systematic comparison of retrieval-augmented generation setups: the
//! configuration rules, provenance names, mock components, benchmark matrix
//! and report text of `ragrig_bench`, each with a machine-checked contract.
//!
//! The crate computes; it opens no file and no connection.  A program around
//! it reads the configuration, drives the store and the models, and hands the
//! outcomes back as plain values.

pub mod backends;
pub mod config;
pub mod corpora;
pub mod corpora_laws;
pub mod defaults;
pub mod error;
pub mod error_laws;
pub mod ingestion;
pub mod interaction;
pub mod interaction_laws;
pub mod itinerary;
pub mod matrix;
pub mod matrix_laws;
pub mod mock;
pub mod mock_laws;
pub mod mock_value_laws;
pub mod naming_laws;
pub mod number;
pub mod number_laws;
pub mod operation_laws;
pub mod pipeline_laws;
pub mod pipelines;
pub mod progress;
pub mod progress_laws;
pub mod provenance;
pub mod rankers;
pub mod registry;
pub mod report;
pub mod report_laws;
pub mod report_operation_laws;
pub mod setting_laws;
pub mod text;
pub mod text_laws;
