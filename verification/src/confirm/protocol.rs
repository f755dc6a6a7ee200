//! Messages of the receive-confirmation protocol: the sender asks, the
//! receiver accepts or rejects.

use vstd::prelude::*;

use crate::system::unix_timestamp;

verus! {

/// A file offered in a transfer.
#[derive(Debug, PartialEq, Eq)]
pub struct FileInfo {
    pub file_id: String,
    pub name: String,
    pub size: u64,
    pub file_type: String,
    pub relative_path: Option<String>,
}

/// The sender's request that the receiver accept a transfer.
#[derive(Debug, PartialEq, Eq)]
pub struct ConfirmRequest {
    pub transfer_id: String,
    pub sender_id: String,
    pub sender_name: String,
    pub files: Vec<FileInfo>,
    pub total_size: u64,
    pub timestamp: i64,
}

/// The receiver's answer to a confirmation request.
#[derive(Debug, PartialEq, Eq)]
pub struct ConfirmResponse {
    pub transfer_id: String,
    pub accepted: bool,
    pub reason: Option<String>,
}

/// Where a confirmation stands.
#[derive(Clone, Copy, Debug, PartialEq, Eq)]
pub enum ConfirmStatus {
    Pending,
    Accepted,
    Rejected,
    Timeout,
}

/// A confirmation request stamped with `timestamp` (seconds since the Unix
/// epoch).
pub fn confirm_request_at(
    transfer_id: String,
    sender_id: String,
    sender_name: String,
    files: Vec<FileInfo>,
    total_size: u64,
    timestamp: i64,
) -> (r: ConfirmRequest)
    ensures
        r == (ConfirmRequest { transfer_id, sender_id, sender_name, files, total_size, timestamp }),
{
    ConfirmRequest { transfer_id, sender_id, sender_name, files, total_size, timestamp }
}

/// A confirmation request stamped with the current time.
pub fn create_confirm_request(
    transfer_id: String,
    sender_id: String,
    sender_name: String,
    files: Vec<FileInfo>,
    total_size: u64,
) -> (r: ConfirmRequest)
    ensures
        r.transfer_id == transfer_id,
        r.sender_id == sender_id,
        r.sender_name == sender_name,
        r.files == files,
        r.total_size == total_size,
{
    let timestamp = unix_timestamp();
    confirm_request_at(transfer_id, sender_id, sender_name, files, total_size, timestamp)
}

/// The receiver's answer.
pub fn create_confirm_response(transfer_id: String, accepted: bool, reason: Option<String>) -> (r:
    ConfirmResponse)
    ensures
        r == (ConfirmResponse { transfer_id, accepted, reason }),
{
    ConfirmResponse { transfer_id, accepted, reason }
}

} // verus!
