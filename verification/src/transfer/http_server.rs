//! The state and the decisions of the HTTP transfer service: pending
//! transfer requests, the per-transfer save paths, the files offered for
//! download, and where an uploaded file is written.

use vstd::prelude::*;

use crate::text::same_text;
use crate::transfer::HTTP_PORT;

verus! {

broadcast use vstd::seq_lib::group_filter_ensures;

/// A file offered in a transfer request.
#[derive(Debug, PartialEq, Eq)]
pub struct FileInfo {
    pub file_id: String,
    pub name: String,
    pub size: u64,
    pub file_type: String,
    pub relative_path: Option<String>,
}

/// A sender's request to transfer files, as posted to `/api/transfer/request`.
#[derive(Debug, PartialEq, Eq)]
pub struct TransferRequest {
    pub transfer_id: String,
    pub sender_id: String,
    pub sender_name: String,
    pub sender_ip: String,
    pub sender_port: u16,
    pub files: Vec<FileInfo>,
    pub total_size: u64,
}

/// No two entries share a key.
pub open spec fn keys_distinct(s: Seq<(String, String)>) -> bool {
    forall|i: int, j: int|
        0 <= i < s.len() && 0 <= j < s.len() && i != j ==> #[trigger] s[i].0@ != #[trigger] s[j].0@
}

/// Some entry has this key.
pub open spec fn has_key(s: Seq<(String, String)>, k: Seq<char>) -> bool {
    exists|i: int| 0 <= i < s.len() && #[trigger] s[i].0@ == k
}

/// The position of the entry with this key, where there is one.
pub open spec fn key_index(s: Seq<(String, String)>, k: Seq<char>) -> int {
    choose|i: int| 0 <= i < s.len() && #[trigger] s[i].0@ == k
}

/// The map that a list of entries with distinct keys stands for.
pub open spec fn entries_map(s: Seq<(String, String)>) -> Map<Seq<char>, Seq<char>> {
    Map::new(|k: Seq<char>| has_key(s, k), |k: Seq<char>| s[key_index(s, k)].1@)
}

/// A map from text keys to paths (transfer id to save path, file id to file
/// path).
pub struct PathTable {
    entries: Vec<(String, String)>,
}

impl View for PathTable {
    type V = Map<Seq<char>, Seq<char>>;

    closed spec fn view(&self) -> Map<Seq<char>, Seq<char>> {
        entries_map(self.entries@)
    }
}

impl PathTable {
    /// Each key is held once.
    pub closed spec fn wf(&self) -> bool {
        keys_distinct(self.entries@)
    }

    /// An empty table.
    pub fn new() -> (t: PathTable)
        ensures
            t.wf(),
            t@ == Map::<Seq<char>, Seq<char>>::empty(),
    {
        let t = PathTable { entries: Vec::new() };
        assert(t@ =~= Map::<Seq<char>, Seq<char>>::empty());
        t
    }

    /// The path stored under `key`.
    pub fn get(&self, key: &str) -> (r: Option<String>)
        requires
            self.wf(),
        ensures
            match r {
                Some(v) => self@.contains_key(key@) && v@ == self@[key@],
                None => !self@.contains_key(key@),
            },
    {
        let n = self.entries.len();
        let mut i: usize = 0;
        while i < n
            invariant
                n == self.entries@.len(),
                i <= n,
                keys_distinct(self.entries@),
                forall|j: int| 0 <= j < i ==> #[trigger] self.entries@[j].0@ != key@,
            decreases n - i,
        {
            if same_text(self.entries[i].0.as_str(), key) {
                proof {
                    let s = self.entries@;
                    assert(has_key(s, key@));
                    let k = key_index(s, key@);
                    if k != i {
                        assert(s[k].0@ != s[i as int].0@);
                    }
                }
                return Some(self.entries[i].1.clone());
            }
            i = i + 1;
        }
        None
    }

    /// Stores `value` under `key`, replacing what was there.
    pub fn insert(&mut self, key: String, value: String)
        requires
            old(self).wf(),
        ensures
            final(self).wf(),
            final(self)@ == old(self)@.insert(key@, value@),
    {
        let ghost s = self.entries@;
        let ghost kv = key@;
        let n = self.entries.len();
        let mut i: usize = 0;
        while i < n
            invariant
                n == self.entries@.len(),
                i <= n,
                self.entries@ == s,
                old(self).entries@ == s,
                keys_distinct(s),
                kv == key@,
                forall|j: int| 0 <= j < i ==> #[trigger] s[j].0@ != kv,
            decreases n - i,
        {
            if same_text(self.entries[i].0.as_str(), key.as_str()) {
                self.entries.set(i, (key, value));
                proof {
                    let t = self.entries@;
                    assert(t =~= s.update(i as int, t[i as int]));
                    assert forall|a: int, b: int|
                        0 <= a < t.len() && 0 <= b < t.len() && a != b implies #[trigger] t[a].0@
                        != #[trigger] t[b].0@ by {
                        if a != i {
                            assert(t[a] == s[a]);
                        }
                        if b != i {
                            assert(t[b] == s[b]);
                        }
                    }
                    lemma_update_map(s, i as int, t);
                }
                return;
            }
            i = i + 1;
        }
        self.entries.push((key, value));
        proof {
            let t = self.entries@;
            assert(t =~= s.push(t[n as int]));
            assert forall|a: int, b: int|
                0 <= a < t.len() && 0 <= b < t.len() && a != b implies #[trigger] t[a].0@
                != #[trigger] t[b].0@ by {
                if a < n {
                    assert(t[a] == s[a]);
                }
                if b < n {
                    assert(t[b] == s[b]);
                }
            }
            lemma_push_map(s, t);
        }
    }
}

/// Replacing the entry at `i` by one with the same key updates the map at
/// that key.
proof fn lemma_update_map(s: Seq<(String, String)>, i: int, t: Seq<(String, String)>)
    requires
        0 <= i < s.len(),
        t.len() == s.len(),
        t[i].0@ == s[i].0@,
        forall|j: int| 0 <= j < s.len() && j != i ==> t[j] == s[j],
        keys_distinct(s),
        keys_distinct(t),
    ensures
        entries_map(t) == entries_map(s).insert(s[i].0@, t[i].1@),
{
    let m = entries_map(s).insert(s[i].0@, t[i].1@);
    assert forall|k: Seq<char>| has_key(t, k) == m.contains_key(k) by {
        if has_key(t, k) {
            let j = key_index(t, k);
            if j != i {
                assert(s[j].0@ == k);
            }
        }
        if has_key(s, k) {
            let j = key_index(s, k);
            if j != i {
                assert(t[j].0@ == k);
            }
        }
    }
    assert forall|k: Seq<char>| #[trigger] has_key(t, k) implies t[key_index(t, k)].1@ == m[k] by {
        let j = key_index(t, k);
        if k == s[i].0@ {
            if j != i {
                assert(t[j].0@ != t[i].0@);
            }
        } else {
            assert(j != i);
            assert(s[j].0@ == k);
            assert(has_key(s, k));
            let j2 = key_index(s, k);
            if j2 != j {
                assert(s[j2].0@ != s[j].0@);
            }
        }
    }
    assert(entries_map(t) =~= m);
}

/// Adding an entry with a new key adds it to the map.
proof fn lemma_push_map(s: Seq<(String, String)>, t: Seq<(String, String)>)
    requires
        t.len() == s.len() + 1,
        forall|j: int| 0 <= j < s.len() ==> t[j] == s[j],
        keys_distinct(t),
    ensures
        entries_map(t) == entries_map(s).insert(t[s.len() as int].0@, t[s.len() as int].1@),
{
    let n = s.len() as int;
    let m = entries_map(s).insert(t[n].0@, t[n].1@);
    assert forall|k: Seq<char>| has_key(t, k) == m.contains_key(k) by {
        if has_key(t, k) {
            let j = key_index(t, k);
            if j != n {
                assert(s[j].0@ == k);
            }
        }
        if has_key(s, k) {
            let j = key_index(s, k);
            assert(t[j].0@ == k);
        }
    }
    assert forall|k: Seq<char>| #[trigger] has_key(t, k) implies t[key_index(t, k)].1@ == m[k] by {
        let j = key_index(t, k);
        if k == t[n].0@ {
            if j != n {
                assert(t[j].0@ != t[n].0@);
            }
        } else {
            assert(j != n);
            assert(s[j].0@ == k);
            assert(has_key(s, k));
            let j2 = key_index(s, k);
            assert(t[j2] == s[j2]);
            if j2 != j {
                assert(t[j2].0@ != t[j].0@);
            }
        }
    }
    assert(entries_map(t) =~= m);
}


/// Keeps the requests of transfers other than `transfer_id`.
pub open spec fn other_transfer(transfer_id: Seq<char>) -> spec_fn(TransferRequest) -> bool {
    |r: TransferRequest| r.transfer_id@ != transfer_id
}

/// The state the transfer service keeps: the transfer requests awaiting an
/// answer, the save path of each accepted transfer, and the local path of
/// each file offered for download.
pub struct AppState {
    pub pending_transfers: Vec<TransferRequest>,
    pub save_paths: PathTable,
    pub download_files: PathTable,
}

impl AppState {
    /// Both path tables are well formed.
    pub open spec fn wf(&self) -> bool {
        self.save_paths.wf() && self.download_files.wf()
    }

    /// No pending requests, no save paths, no downloadable files.
    pub fn new() -> (st: AppState)
        ensures
            st.wf(),
            st.pending_transfers@ == Seq::<TransferRequest>::empty(),
            st.save_paths@ == Map::<Seq<char>, Seq<char>>::empty(),
            st.download_files@ == Map::<Seq<char>, Seq<char>>::empty(),
    {
        AppState {
            pending_transfers: Vec::new(),
            save_paths: PathTable::new(),
            download_files: PathTable::new(),
        }
    }

    /// Records a transfer request until it is answered.
    pub fn add_transfer_request(&mut self, request: TransferRequest)
        ensures
            final(self).pending_transfers@ == old(self).pending_transfers@.push(request),
            final(self).save_paths == old(self).save_paths,
            final(self).download_files == old(self).download_files,
    {
        self.pending_transfers.push(request);
    }

    /// Drops every pending request of a rejected transfer, keeping the others
    /// in order.
    pub fn reject_transfer(&mut self, transfer_id: &str)
        ensures
            final(self).pending_transfers@ == old(self).pending_transfers@.filter(
                other_transfer(transfer_id@),
            ),
            final(self).save_paths == old(self).save_paths,
            final(self).download_files == old(self).download_files,
    {
        let ghost s = self.pending_transfers@;
        let ghost pred = other_transfer(transfer_id@);
        let ghost mut k: int = 0;
        let mut i: usize = 0;
        while i < self.pending_transfers.len()
            invariant
                0 <= k <= s.len(),
                pred == other_transfer(transfer_id@),
                i == s.take(k).filter(pred).len(),
                self.pending_transfers@ == s.take(k).filter(pred) + s.skip(k),
                self.save_paths == old(self).save_paths,
                self.download_files == old(self).download_files,
            decreases s.len() - k,
        {
            let ghost before = self.pending_transfers@;
            proof {
                assert(before[i as int] == s[k]);
                assert(s.take(k + 1) =~= s.take(k).push(s[k]));
                s.take(k).lemma_filter_push(s[k], pred);
            }
            if same_text(self.pending_transfers[i].transfer_id.as_str(), transfer_id) {
                self.pending_transfers.remove(i);
                proof {
                    assert(self.pending_transfers@ =~= s.take(k + 1).filter(pred) + s.skip(k + 1));
                }
            } else {
                i = i + 1;
                proof {
                    assert(self.pending_transfers@ =~= s.take(k + 1).filter(pred) + s.skip(k + 1));
                }
            }
            proof {
                k = k + 1;
            }
        }
        proof {
            assert(s.take(k).filter(pred).len() <= k);
            assert(s.skip(k).len() == 0);
            assert(k == s.len());
            assert(s.take(k) =~= s);
            assert(self.pending_transfers@ =~= s.filter(pred));
        }
    }

    /// The save path of a transfer, or empty where none was stored.
    pub fn save_path_for(&self, transfer_id: &str) -> (r: String)
        requires
            self.wf(),
        ensures
            r@ == (if self.save_paths@.contains_key(transfer_id@) {
                self.save_paths@[transfer_id@]
            } else {
                Seq::<char>::empty()
            }),
    {
        match self.save_paths.get(transfer_id) {
            Some(p) => p,
            None => String::new(),
        }
    }

    /// The local path of a file offered for download, where there is one.
    pub fn download_file_path(&self, file_id: &str) -> (r: Option<String>)
        requires
            self.wf(),
        ensures
            match r {
                Some(p) => self.download_files@.contains_key(file_id@) && p@
                    == self.download_files@[file_id@],
                None => !self.download_files@.contains_key(file_id@),
            },
    {
        self.download_files.get(file_id)
    }
}

/// The receiver's port in an acceptance: the posted number, cut to 16 bits
/// as `as u16` does, or the default HTTP port where none was posted.
pub fn accepted_receiver_port(posted: Option<u64>) -> (port: u16)
    ensures
        port == (match posted {
            Some(p) => (p % 65536) as u16,
            None => HTTP_PORT,
        }),
{
    match posted {
        Some(p) => {
            let port = p as u16;
            assert(port == p % 65536) by (bit_vector)
                requires
                    port == p as u16,
            ;
            port
        },
        None => HTTP_PORT,
    }
}

/// The directory an uploaded file goes under.
#[derive(Debug, PartialEq, Eq)]
pub enum UploadBase {
    /// The save path chosen for the transfer.
    SavePath(String),
    /// The `transfers/<transfer id>` directory under the app data directory.
    AppDataTransfers(String),
}

/// Where an uploaded file is written: `entry` joined onto `base`.
#[derive(Debug, PartialEq, Eq)]
pub struct UploadTarget {
    pub base: UploadBase,
    pub entry: String,
}

/// Where a file of a transfer is written: under the transfer's save path, or
/// under the app data directory where no save path was stored; at its
/// relative path, or under its name where it has none.
pub fn upload_target(save_path: String, transfer_id: &str, relative_path: &str, file_name: &str) -> (t:
    UploadTarget)
    ensures
        t.base == (if save_path@.len() == 0 {
            t.base
        } else {
            UploadBase::SavePath(save_path)
        }),
        save_path@.len() == 0 ==> (t.base matches UploadBase::AppDataTransfers(id) && id@
            == transfer_id@),
        t.entry@ == (if relative_path@.len() == 0 {
            file_name@
        } else {
            relative_path@
        }),
{
    let base = if save_path.as_str().is_empty() {
        UploadBase::AppDataTransfers(String::from_str(transfer_id))
    } else {
        UploadBase::SavePath(save_path)
    };
    let entry = if relative_path.is_empty() {
        String::from_str(file_name)
    } else {
        String::from_str(relative_path)
    };
    UploadTarget { base, entry }
}


/// Reading a path table after a write gives back what was written, and
/// leaves every other key as it was.
pub proof fn lemma_path_read_after_write(
    m: Map<Seq<char>, Seq<char>>,
    key: Seq<char>,
    value: Seq<char>,
    other: Seq<char>,
)
    ensures
        m.insert(key, value).contains_key(key),
        m.insert(key, value)[key] == value,
        other != key ==> m.insert(key, value).contains_key(other) == m.contains_key(other),
        other != key && m.contains_key(other) ==> m.insert(key, value)[other] == m[other],
{
}

/// Rejecting a transfer drops every pending request of that transfer and
/// keeps every request of another transfer.
pub proof fn lemma_reject_drops(pending: Seq<TransferRequest>, transfer_id: Seq<char>)
    ensures
        forall|i: int|
            0 <= i < pending.filter(other_transfer(transfer_id)).len() ==> (#[trigger] pending.filter(
                other_transfer(transfer_id),
            )[i]).transfer_id@ != transfer_id,
        forall|i: int|
            0 <= i < pending.len() && (#[trigger] pending[i]).transfer_id@ != transfer_id
                ==> pending.filter(other_transfer(transfer_id)).contains(pending[i]),
{
    let pred = other_transfer(transfer_id);
    assert forall|i: int| 0 <= i < pending.filter(pred).len() implies (#[trigger] pending.filter(
        pred,
    )[i]).transfer_id@ != transfer_id by {
        pending.lemma_filter_pred(pred, i);
    }
    assert forall|i: int|
        0 <= i < pending.len() && (#[trigger] pending[i]).transfer_id@
            != transfer_id implies pending.filter(pred).contains(pending[i]) by {
        pending.lemma_filter_contains(pred, i);
    }
}

} // verus!
