//! Metadata resolution for ripped audio discs: parsing of per-track property
//! files and disc-level text blobs, and the rules that merge them into one
//! consistent album record.
pub mod album_info;
pub mod cddb_read;
pub mod cli;
pub mod date;
pub mod edit;
pub mod err;
pub mod flac;
pub mod get_perf;
pub mod num;
pub mod show;
pub mod text;
pub mod track_info;
