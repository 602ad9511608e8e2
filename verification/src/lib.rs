//! Verified core of a batch-OCR control workflow.
//!
//! The library models everything the workflow decides: parsing the remote
//! tab listing, ordering stale workspace entries for closing, deriving the
//! output path from the document path, building the control commands, and
//! the step-by-step workflow state machine with its bounded verification
//! retry and its completion watch.  The surrounding program performs the
//! HTTP calls, the sleeps and the filesystem probes, and feeds their
//! results back to the state machine as events.

pub mod chars;
pub mod command;
pub mod listing;
pub mod order;
pub mod paths;
pub mod workflow;
