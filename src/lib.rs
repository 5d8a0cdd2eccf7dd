//! Conversion-and-merge pipeline: turns a batch of documents, some already
//! PDFs and some office documents, into the ordered list of PDFs to merge.

mod converter;
mod coordinator;
mod document;
mod pipeline;

pub use converter::{ConversionJob, OfficeConverter, PlanError};
pub use coordinator::{RunJob, RunState, StartOutcome, ValidationError};
pub use pipeline::{
    lemma_merge_order_all_succeed, lemma_merge_order_one_failure, lemma_scratch_paths_distinct,
};
pub use document::{
    add_documents, classify, is_final_format, join_path, merge_sequence, with_pdf_extension,
};
