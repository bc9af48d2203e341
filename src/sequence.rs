//! Nucleotide sequences and their translation into amino acids.
pub mod tln_table;
pub mod translate;
