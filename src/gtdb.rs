//! GTDB taxonomy, metadata and genome directory files.
pub mod genome_dirs_file;
pub mod metadata_r214;
pub mod taxon;
pub mod taxonomy;
pub mod taxonomy_rank;
