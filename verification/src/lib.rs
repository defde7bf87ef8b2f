//! A household inventory ledger: free-form text becomes structured items that
//! are attached to at most one container and rendered as label lines.
//!
//! - `text` brings optional form fields into a canonical form.
//! - `extract` turns raw text, and what a structuring capability made of it,
//!   into named quantities.
//! - `resolve` decides which container a submission belongs to.
//! - `assemble` makes the item records of a submission.
//! - `label` lays item records out as the lines of a label.
//! - `workflow` takes one submission through these steps, one decision at a
//!   time, while the caller talks to the capability and to storage.
//! - `listing` cuts stored records into sections for display.
//! - `escape` and `number` hold the text helpers that the others share.

pub mod assemble;
pub mod escape;
pub mod extract;
pub mod label;
pub mod listing;
pub mod number;
pub mod resolve;
pub mod text;
pub mod workflow;
