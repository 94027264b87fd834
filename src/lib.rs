//! Selective correction of LaTeX documents: the document is cut into regions,
//! the working region into preserved lines and free-text chunks, each chunk
//! into sentence batches for an external correction service, and the result
//! is put back together in order.

pub mod text;
pub mod regions;
pub mod structure;
pub mod batch;
pub mod oracle;
pub mod assemble;
