//! What the history store writes: the row of a new transfer, the row of a
//! new file, and the change that a status update makes. The store itself
//! (SQLite) is driven by the caller.

use vstd::prelude::*;

use crate::history::models::{FileRecord, TransferRecord};
use crate::system::unix_timestamp;
use crate::text::same_text;

verus! {

/// How many transfers the history lists, newest first.
pub const HISTORY_LIMIT: u32 = 100;

/// The status of a transfer that has just been recorded.
pub open spec fn pending_status() -> Seq<char> {
    "pending"@
}

/// The row of a new transfer, created at `created_at` (seconds since the
/// Unix epoch): pending, nothing transferred yet, not completed.
pub fn transfer_record_at(
    id: &str,
    direction: &str,
    peer_device_id: &str,
    peer_device_name: &str,
    peer_ip: &str,
    total_size: u64,
    created_at: i64,
) -> (r: TransferRecord)
    ensures
        r.id@ == id@,
        r.direction@ == direction@,
        r.status@ == pending_status(),
        r.peer_device_id@ == peer_device_id@,
        r.peer_device_name@ == peer_device_name@,
        r.peer_ip matches Some(ip) && ip@ == peer_ip@,
        r.total_size == total_size,
        r.transferred_size == 0,
        r.created_at == created_at,
        r.completed_at is None,
{
    TransferRecord {
        id: String::from_str(id),
        direction: String::from_str(direction),
        status: String::from_str("pending"),
        peer_device_id: String::from_str(peer_device_id),
        peer_device_name: String::from_str(peer_device_name),
        peer_ip: Some(String::from_str(peer_ip)),
        total_size,
        transferred_size: 0,
        created_at,
        completed_at: None,
    }
}

/// The row of a new file of a transfer, created at `created_at`.
pub fn file_record_at(
    id: &str,
    transfer_id: &str,
    name: &str,
    path: Option<&str>,
    size: u64,
    md5: Option<&str>,
    status: &str,
    created_at: i64,
) -> (r: FileRecord)
    ensures
        r.id@ == id@,
        r.transfer_id@ == transfer_id@,
        r.name@ == name@,
        match path {
            Some(p) => r.path matches Some(q) && q@ == p@,
            None => r.path is None,
        },
        r.size == size,
        match md5 {
            Some(m) => r.md5 matches Some(q) && q@ == m@,
            None => r.md5 is None,
        },
        r.status@ == status@,
        r.created_at == created_at,
{
    FileRecord {
        id: String::from_str(id),
        transfer_id: String::from_str(transfer_id),
        name: String::from_str(name),
        path: match path {
            Some(p) => Some(String::from_str(p)),
            None => None,
        },
        size,
        md5: match md5 {
            Some(m) => Some(String::from_str(m)),
            None => None,
        },
        status: String::from_str(status),
        created_at,
    }
}

/// The change a status update makes to a transfer's row: the new status and
/// transferred size, and, when the status is `"completed"`, the completion
/// time (otherwise the completion time is left as it was).
pub struct StatusUpdate {
    pub status: String,
    pub transferred_size: u64,
    pub completed_at: Option<i64>,
}

/// The update for a transfer that reaches `status` with `transferred_size`
/// bytes at `now`.
pub fn status_update_at(status: &str, transferred_size: u64, now: i64) -> (u: StatusUpdate)
    ensures
        u.status@ == status@,
        u.transferred_size == transferred_size,
        u.completed_at == (if status@ == "completed"@ {
            Some(now)
        } else {
            None
        }),
{
    let completed = same_text(status, "completed");
    StatusUpdate {
        status: String::from_str(status),
        transferred_size,
        completed_at: if completed {
            Some(now)
        } else {
            None
        },
    }
}


/// The row that recording a new transfer inserts, created now. A row whose
/// id is already stored is left as it was (`INSERT OR IGNORE`).
pub fn add_transfer(
    id: &str,
    direction: &str,
    peer_device_id: &str,
    peer_device_name: &str,
    peer_ip: &str,
    total_size: u64,
) -> (r: TransferRecord)
    ensures
        r.id@ == id@,
        r.direction@ == direction@,
        r.status@ == pending_status(),
        r.peer_device_id@ == peer_device_id@,
        r.peer_device_name@ == peer_device_name@,
        r.peer_ip matches Some(ip) && ip@ == peer_ip@,
        r.total_size == total_size,
        r.transferred_size == 0,
        r.completed_at is None,
{
    let now = unix_timestamp();
    transfer_record_at(id, direction, peer_device_id, peer_device_name, peer_ip, total_size, now)
}

/// The row that recording a file of a transfer inserts, created now.
pub fn add_file_record(
    id: &str,
    transfer_id: &str,
    name: &str,
    path: Option<&str>,
    size: u64,
    md5: Option<&str>,
    status: &str,
) -> (r: FileRecord)
    ensures
        r.id@ == id@,
        r.transfer_id@ == transfer_id@,
        r.name@ == name@,
        match path {
            Some(p) => r.path matches Some(q) && q@ == p@,
            None => r.path is None,
        },
        r.size == size,
        match md5 {
            Some(m) => r.md5 matches Some(q) && q@ == m@,
            None => r.md5 is None,
        },
        r.status@ == status@,
{
    let now = unix_timestamp();
    file_record_at(id, transfer_id, name, path, size, md5, status, now)
}

/// The update of a transfer that reaches `status` with `transferred_size`
/// bytes now; it carries a completion time exactly when the status is
/// `"completed"`.
pub fn update_status(status: &str, transferred_size: u64) -> (u: StatusUpdate)
    ensures
        u.status@ == status@,
        u.transferred_size == transferred_size,
        (u.completed_at is Some) == (status@ == "completed"@),
{
    let now = unix_timestamp();
    status_update_at(status, transferred_size, now)
}

} // verus!
