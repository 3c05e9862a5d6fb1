//! The decisions of a file-based knowledge store, stated and proved.
use vstd::prelude::*;

pub mod apply;
pub mod batch;
pub mod batch_laws;
pub mod batch_model;
pub mod batch_recovery;
pub mod bundle_laws;
pub mod change_laws;
pub mod changes;
pub mod clock;
pub mod commit_laws;
pub mod commit_message;
pub mod config;
pub mod document;
pub mod fields;
pub mod finalize;
pub mod generation_laws;
pub mod git_error;
pub mod git_output;
pub mod git_text;
pub mod guard_laws;
pub mod history;
pub mod ids;
pub mod index;
pub mod index_laws;
pub mod index_store;
pub mod index_store_laws;
pub mod journal;
pub mod linear_search;
pub mod markdown;
pub mod message_laws;
pub mod opening;
pub mod order;
pub mod path;
pub mod plan_laws;
pub mod planning_laws;
pub mod poll_laws;
pub mod processor;
pub mod publication_laws;
pub mod read;
pub mod read_error;
pub mod reading_laws;
pub mod record_laws;
pub mod recovery_laws;
pub mod replication;
pub mod repository;
pub mod rfc3339;
pub mod run_error;
pub mod runtime;
pub mod schedule;
pub mod search_error;
pub mod search_fields;
pub mod search_index;
pub mod search_laws;
pub mod search_text;
pub mod shown_laws;
pub mod startup;
pub mod status;
pub mod store;
pub mod store_laws;
pub mod text;
pub mod text_laws;
pub mod topology;
pub mod worker_laws;

verus! {

} // verus!
