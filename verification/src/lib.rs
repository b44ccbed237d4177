//! Checkpointed, cancellable batch validation of mnemonic phrases.
//!
//! The library holds the verified core of the processor: classifying and
//! filtering lines against the validity predicate, checkpoint encoding and
//! resume arithmetic, and progress/ETA reporting. File handling, signal
//! handling and the parallel dispatch around this core live outside it.
pub mod checkpoint;
pub mod engine;
pub mod numtext;
pub mod phrase;
pub mod progress;
pub mod source;
pub mod text;
