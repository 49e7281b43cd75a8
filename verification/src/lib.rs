//! Orchestration core of a scanned-document conversion pipeline.
//!
//! The pipeline turns a scanned PDF into a cleaned, OCR-searchable PDF by
//! driving external tools (a rasterizer, a page-cleanup filter, an OCR
//! engine and a PDF merger) over the pages of the document.  This crate
//! holds the logic of that orchestration: workspace path bookkeeping and
//! the staged-file naming protocol, the construction of every external
//! command line, the parsing of tool output, the work-queue semantics of
//! the bounded worker pool, and the stage sequencing.  The process and
//! filesystem side effects themselves are performed by the surrounding
//! binary, which calls into this crate for every decision.

pub mod command;
pub mod convert;
pub mod error;
pub mod paths;
pub mod pdf;
pub mod pipeline;
pub mod pool;
pub mod run;
pub mod tesseract;
pub mod text;
pub mod unpaper;
pub mod util;

pub use error::{ErrorKind, ErrorMessage};
