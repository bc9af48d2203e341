//! # Prole
//!
//! A collection of parsers and helpers for genome-scale bioinformatics files:
//! HMMER alignments, GTDB taxonomy strings and metadata, genome accessions and
//! codon translation. Every function here is verified against its contract.

pub mod error;
pub mod genome;
pub mod gtdb;
pub mod hmm;
pub mod sequence;
pub mod text;
