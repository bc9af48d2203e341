pub mod hmmalign_file;
pub mod hmmsearch_file;
pub mod pypfam_file;
