//! Core logic of a LAN file-transmission tool: device discovery decisions,
//! the device registry, transfer bookkeeping, resumable upload and ranged
//! download planning, and the text encodings these rely on.

pub mod text;
pub mod system;
pub mod discovery;
pub mod transfer;
pub mod confirm;
pub mod history;
pub mod settings;
pub mod commands;

pub use commands::{FileEntry, UploadResult, UploadStatusResult};
