//! The decisions behind the application's commands: the URLs of a peer's
//! upload endpoints, resuming an upload at an offset, the results reported
//! to the interface, and the listing of a folder's files.

use vstd::prelude::*;

use crate::text::{decimal, decimal_string};

verus! {

broadcast use vstd::seq_lib::group_filter_ensures;

/// The result of uploading a file to a receiver.
#[derive(Debug, PartialEq, Eq)]
pub struct UploadResult {
    pub success: bool,
    pub message: String,
    pub transferred_size: u64,
}

/// What a receiver holds of a file being uploaded.
#[derive(Clone, Copy, Debug, PartialEq, Eq)]
pub struct UploadStatusResult {
    pub success: bool,
    pub exists: bool,
    pub received_size: u64,
}

/// A file of a folder being sent.
#[derive(Debug, PartialEq, Eq)]
pub struct FileEntry {
    pub id: String,
    pub name: String,
    pub path: String,
    pub size: u64,
    pub relative_path: String,
    pub is_dir: bool,
}

/// The path of a receiver's upload endpoint.
pub const UPLOAD_PATH: &'static str = "/api/upload";

/// The path of a receiver's upload-status endpoint.
pub const UPLOAD_STATUS_PATH: &'static str = "/api/upload/status";

/// `http://<ip>:<port><path>`.
pub open spec fn endpoint_url_text(ip: Seq<char>, port: u16, path: Seq<char>) -> Seq<char> {
    "http://"@ + ip + seq![':'] + decimal(port as nat) + path
}

/// The URL of an endpoint of the receiver at `ip`:`port`.
pub fn endpoint_url(ip: &str, port: u16, path: &str) -> (url: String)
    ensures
        url@ == endpoint_url_text(ip@, port, path@),
{
    proof {
        reveal_strlit(":");
    }
    let mut url = String::from_str("http://");
    url.append(ip);
    url.append(":");
    let p = decimal_string(port as u64);
    url.append(p.as_str());
    url.append(path);
    assert(":"@ =~= seq![':']);
    url
}

/// What the upload-status query reports: where the receiver answered with
/// success, what it said (absent fields read as "no file" and 0 bytes);
/// otherwise a failure with nothing received.
pub fn upload_status_result(answered: bool, exists: Option<bool>, received_size: Option<u64>) -> (r:
    UploadStatusResult)
    ensures
        r == (if answered {
            UploadStatusResult {
                success: true,
                exists: match exists {
                    Some(e) => e,
                    None => false,
                },
                received_size: match received_size {
                    Some(n) => n,
                    None => 0,
                },
            }
        } else {
            UploadStatusResult { success: false, exists: false, received_size: 0 }
        }),
{
    if answered {
        UploadStatusResult {
            success: true,
            exists: match exists {
                Some(e) => e,
                None => false,
            },
            received_size: match received_size {
                Some(n) => n,
                None => 0,
            },
        }
    } else {
        UploadStatusResult { success: false, exists: false, received_size: 0 }
    }
}

/// Where an upload resumes: the offset it reports (`start_offset`), and the
/// first byte of the file it sends (`send_from`).
#[derive(Clone, Copy, Debug, PartialEq, Eq)]
pub struct ResumePoint {
    pub start_offset: u64,
    pub send_from: u64,
}

/// Resuming at `offset` (0 where none is given) sends the file from that
/// byte when it lies inside the file, and the whole file otherwise.
pub fn resume_point(file_len: u64, offset: Option<u64>) -> (r: ResumePoint)
    ensures
        r.start_offset == (match offset {
            Some(o) => o,
            None => 0,
        }),
        r.send_from == (if 0 < r.start_offset && r.start_offset < file_len {
            r.start_offset
        } else {
            0
        }),
        r.send_from <= file_len,
{
    let start_offset = match offset {
        Some(o) => o,
        None => 0,
    };
    let send_from = if start_offset > 0 && start_offset < file_len {
        start_offset
    } else {
        0
    };
    ResumePoint { start_offset, send_from }
}

/// A successful upload that started at `start_offset` and sent `send_size`
/// bytes: the receiver now holds `start_offset + send_size` bytes.
pub fn upload_succeeded(start_offset: u64, send_size: u64) -> (r: UploadResult)
    requires
        start_offset + send_size <= u64::MAX,
    ensures
        r.success,
        r.message@ == "上传成功"@,
        r.transferred_size == start_offset + send_size,
{
    UploadResult {
        success: true,
        message: String::from_str("上传成功"),
        transferred_size: start_offset + send_size,
    }
}

/// A failed upload, with the reason.
pub fn upload_failed(message: String) -> (r: UploadResult)
    ensures
        !r.success,
        r.message == message,
        r.transferred_size == 0,
{
    UploadResult { success: false, message, transferred_size: 0 }
}

/// Resuming a file at an offset inside it and sending the rest leaves the
/// receiver holding the whole file; sending from the start of the file (no
/// offset) does too.
pub proof fn lemma_resume_completes(file_len: u64, offset: Option<u64>, r: ResumePoint)
    requires
        r.start_offset == (match offset {
            Some(o) => o,
            None => 0,
        }),
        r.send_from == (if 0 < r.start_offset && r.start_offset < file_len {
            r.start_offset
        } else {
            0
        }),
        r.start_offset < file_len,
    ensures
        r.start_offset + (file_len - r.send_from) == file_len,
{
}

/// A walked directory entry of a folder being sent.
#[derive(Debug, PartialEq, Eq)]
pub struct WalkedFile {
    pub name: String,
    pub path: String,
    pub size: u64,
    pub is_file: bool,
    /// The path below the folder, where the entry lies below it.
    pub relative: Option<String>,
}

/// Keeps the files (not directories).
pub open spec fn is_walked_file() -> spec_fn(WalkedFile) -> bool {
    |w: WalkedFile| w.is_file
}

/// The relative path a file is sent under: the folder's name, a backslash
/// and its path below the folder, or its bare name where it has none.
pub open spec fn entry_relative_path(folder_name: Seq<char>, w: WalkedFile) -> Seq<char> {
    match w.relative {
        Some(r) => folder_name + seq!['\\'] + r@,
        None => w.name@,
    }
}

/// `e` is the entry of the `k`-th file `w` of the folder.
pub open spec fn entry_for(e: FileEntry, k: nat, folder_name: Seq<char>, w: WalkedFile) -> bool {
    &&& e.id@ == "file_"@ + decimal(k)
    &&& e.name@ == w.name@
    &&& e.path@ == w.path@
    &&& e.size == w.size
    &&& e.relative_path@ == entry_relative_path(folder_name, w)
    &&& !e.is_dir
}

/// The entries of a folder's files, numbered from `file_0` in walk order;
/// directories are left out.
pub fn folder_file_entries(folder_name: &str, walked: &Vec<WalkedFile>) -> (r: Vec<FileEntry>)
    ensures
        r@.len() == walked@.filter(is_walked_file()).len(),
        forall|k: int|
            0 <= k < r@.len() ==> entry_for(
                #[trigger] r@[k],
                k as nat,
                folder_name@,
                walked@.filter(is_walked_file())[k],
            ),
{
    proof {
        reveal_strlit("\\");
    }
    assert("\\"@ =~= seq!['\\']);
    let ghost pred = is_walked_file();
    let mut r: Vec<FileEntry> = Vec::new();
    let n = walked.len();
    let mut i: usize = 0;
    while i < n
        invariant
            n == walked@.len(),
            i <= n,
            pred == is_walked_file(),
            "\\"@ == seq!['\\'],
            r@.len() == walked@.take(i as int).filter(pred).len(),
            r@.len() <= i,
            forall|k: int|
                0 <= k < r@.len() ==> entry_for(
                    #[trigger] r@[k],
                    k as nat,
                    folder_name@,
                    walked@.take(i as int).filter(pred)[k],
                ),
        decreases n - i,
    {
        let w = &walked[i];
        let ghost before = walked@.take(i as int).filter(pred);
        proof {
            assert(walked@.take(i + 1) =~= walked@.take(i as int).push(walked@[i as int]));
            walked@.take(i as int).lemma_filter_push(walked@[i as int], pred);
        }
        if w.is_file {
            let index = r.len();
            let mut id = String::from_str("file_");
            let digits = decimal_string(index as u64);
            id.append(digits.as_str());
            let relative_path = match &w.relative {
                Some(rel) => {
                    let mut p = String::from_str(folder_name);
                    p.append("\\");
                    p.append(rel.as_str());
                    p
                },
                None => w.name.clone(),
            };
            r.push(
                FileEntry {
                    id,
                    name: w.name.clone(),
                    path: w.path.clone(),
                    size: w.size,
                    relative_path,
                    is_dir: false,
                },
            );
            proof {
                let after = walked@.take(i + 1).filter(pred);
                assert(after == before.push(walked@[i as int]));
                assert forall|k: int| 0 <= k < r@.len() implies entry_for(
                    #[trigger] r@[k],
                    k as nat,
                    folder_name@,
                    after[k],
                ) by {
                    if k < r@.len() - 1 {
                        assert(after[k] == before[k]);
                    }
                }
            }
        }
        i = i + 1;
    }
    assert(walked@.take(n as int) =~= walked@);
    r
}

} // verus!
