//! Genome accessions and genome FASTA files.
pub mod fasta_file;
pub mod genome_id;
