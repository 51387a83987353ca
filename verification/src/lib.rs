//! Task and transfer rules of a music download service: file naming, download
//! paths, HTTP resume decisions, QRC lyric decoding and the task state machine.

pub mod contract;
pub mod decryption;
pub mod des;
pub mod download_config;
pub mod download_link;
pub mod download_path;
pub mod download_worker;
pub mod filename;
pub mod http_transfer;
pub mod json;
pub mod json_task_repository;
pub mod local_download_file;
pub mod local_file_deleter;
pub mod platform;
pub mod platforms;
pub mod ports;
pub mod postprocess;
pub mod qq_credentials;
pub mod qqmusic_link;
pub mod qrc;
pub mod server;
pub mod settings_patch;
pub mod task_context;
pub mod task_service;
pub mod task_state;
pub mod text;
pub mod unicode_word;
