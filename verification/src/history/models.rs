//! The records of the transfer history.

use vstd::prelude::*;

verus! {

/// One transfer in the history.
#[derive(Debug, PartialEq, Eq)]
pub struct TransferRecord {
    pub id: String,
    pub direction: String,
    pub status: String,
    pub peer_device_id: String,
    pub peer_device_name: String,
    pub peer_ip: Option<String>,
    pub total_size: u64,
    pub transferred_size: u64,
    pub created_at: i64,
    pub completed_at: Option<i64>,
}

/// One file of a transfer in the history.
#[derive(Debug, PartialEq, Eq)]
pub struct FileRecord {
    pub id: String,
    pub transfer_id: String,
    pub name: String,
    pub path: Option<String>,
    pub size: u64,
    pub md5: Option<String>,
    pub status: String,
    pub created_at: i64,
}

} // verus!
