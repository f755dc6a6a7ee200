use lan_transmission::transfer::download_handler::{content_range, plan_download, DownloadPlan};
use lan_transmission::transfer::http_server::{
    accepted_receiver_port, upload_target, AppState, FileInfo, PathTable, TransferRequest,
    UploadBase, UploadTarget,
};
use lan_transmission::transfer::upload_handler::{
    classify_upload_field, write_mode, UploadField, UploadForm, WriteMode,
};
use lan_transmission::transfer::HTTP_PORT;

fn request(id: &str, sender: &str) -> TransferRequest {
    TransferRequest {
        transfer_id: id.to_string(),
        sender_id: sender.to_string(),
        sender_name: "sender".to_string(),
        sender_ip: "192.168.1.3".to_string(),
        sender_port: 8080,
        files: vec![FileInfo {
            file_id: "f1".to_string(),
            name: "a.txt".to_string(),
            size: 3,
            file_type: "text/plain".to_string(),
            relative_path: None,
        }],
        total_size: 3,
    }
}

#[test]
fn path_table_read_after_write() {
    let mut t = PathTable::new();
    assert_eq!(t.get("t1"), None);
    t.insert("t1".to_string(), "/a".to_string());
    t.insert("t2".to_string(), "/b".to_string());
    assert_eq!(t.get("t1"), Some("/a".to_string()));
    t.insert("t1".to_string(), "/c".to_string());
    assert_eq!(t.get("t1"), Some("/c".to_string()));
    assert_eq!(t.get("t2"), Some("/b".to_string()));
    assert_eq!(t.get("t3"), None);
}

#[test]
fn app_state_pending_and_reject() {
    let mut st = AppState::new();
    st.add_transfer_request(request("t1", "a"));
    st.add_transfer_request(request("t2", "b"));
    st.add_transfer_request(request("t1", "c"));
    st.reject_transfer("t1");
    assert_eq!(st.pending_transfers.len(), 1);
    assert_eq!(st.pending_transfers[0].transfer_id, "t2");
    st.reject_transfer("none");
    assert_eq!(st.pending_transfers.len(), 1);
}

#[test]
fn app_state_paths() {
    let mut st = AppState::new();
    assert_eq!(st.save_path_for("t1"), "");
    st.save_paths.insert("t1".to_string(), "/home/u/recv".to_string());
    assert_eq!(st.save_path_for("t1"), "/home/u/recv");
    assert_eq!(st.download_file_path("f1"), None);
    st.download_files.insert("f1".to_string(), "/tmp/f1.bin".to_string());
    assert_eq!(st.download_file_path("f1"), Some("/tmp/f1.bin".to_string()));
}

#[test]
fn accepted_port_truncates_like_as_u16() {
    assert_eq!(accepted_receiver_port(None), HTTP_PORT);
    assert_eq!(accepted_receiver_port(Some(9000)), 9000);
    assert_eq!(accepted_receiver_port(Some(70000)), 70000u64 as u16);
    assert_eq!(accepted_receiver_port(Some(65536)), 0);
}

#[test]
fn upload_target_choices() {
    let t = upload_target(String::new(), "t1", "", "a.txt");
    assert_eq!(t, UploadTarget { base: UploadBase::AppDataTransfers("t1".to_string()), entry: "a.txt".to_string() });
    let t = upload_target("/save".to_string(), "t1", "dir\\b.txt", "b.txt");
    assert_eq!(t, UploadTarget { base: UploadBase::SavePath("/save".to_string()), entry: "dir\\b.txt".to_string() });
}

#[test]
fn upload_form_fields() {
    assert_eq!(classify_upload_field("transfer_id"), UploadField::TransferId);
    assert_eq!(classify_upload_field("file_id"), UploadField::FileId);
    assert_eq!(classify_upload_field("file_name"), UploadField::FileName);
    assert_eq!(classify_upload_field("relative_path"), UploadField::RelativePath);
    assert_eq!(classify_upload_field("offset"), UploadField::Offset);
    assert_eq!(classify_upload_field("file"), UploadField::File);
    assert_eq!(classify_upload_field("files"), UploadField::Other);
    let mut f = UploadForm::new();
    f.set_text(UploadField::TransferId, "t1".to_string());
    f.set_text(UploadField::FileId, "f1".to_string());
    f.set_text(UploadField::FileName, "a.txt".to_string());
    f.set_text(UploadField::RelativePath, "d\\a.txt".to_string());
    f.set_text(UploadField::Offset, "1024".to_string());
    f.set_text(UploadField::Other, "ignored".to_string());
    f.add_chunk(100);
    f.add_chunk(50);
    assert_eq!(f.transfer_id, "t1");
    assert_eq!(f.file_id, "f1");
    assert_eq!(f.file_name, "a.txt");
    assert_eq!(f.relative_path, "d\\a.txt");
    assert_eq!(f.offset, 1024);
    assert_eq!(f.received_size, 150);
    assert_eq!(f.total_received(), 1174);
    f.set_text(UploadField::Offset, "abc".to_string());
    assert_eq!(f.offset, 0);
}

#[test]
fn write_mode_resumes_only_existing_files_at_an_offset() {
    assert_eq!(write_mode(10, true), WriteMode::Resume { offset: 10 });
    assert_eq!(write_mode(10, false), WriteMode::Create);
    assert_eq!(write_mode(0, true), WriteMode::Create);
}

fn partial(p: DownloadPlan) -> (u64, u64, u64, String) {
    match p {
        DownloadPlan::Partial { start, end, length, content_range } => (start, end, length, content_range),
        DownloadPlan::Whole { .. } => panic!("whole"),
        DownloadPlan::Unserved => panic!("unserved"),
    }
}

#[test]
fn download_without_range_is_whole() {
    assert!(matches!(plan_download(None, 500), DownloadPlan::Whole { length: 500 }));
    assert!(matches!(plan_download(None, 0), DownloadPlan::Whole { length: 0 }));
}

#[test]
fn download_closed_and_open_ranges() {
    assert_eq!(partial(plan_download(Some("bytes=0-9"), 100)), (0, 9, 10, "bytes 0-9/100".to_string()));
    assert_eq!(partial(plan_download(Some("bytes=50-"), 100)), (50, 99, 50, "bytes 50-99/100".to_string()));
    assert_eq!(partial(plan_download(Some("bytes=99-99"), 100)), (99, 99, 1, "bytes 99-99/100".to_string()));
    assert_eq!(partial(plan_download(Some("0-9"), 100)), (0, 9, 10, "bytes 0-9/100".to_string()));
    assert_eq!(partial(plan_download(Some("bytes=-5"), 100)), (0, 5, 6, "bytes 0-5/100".to_string()));
    assert_eq!(partial(plan_download(Some("bytes=x-"), 100)), (0, 99, 100, "bytes 0-99/100".to_string()));
    assert_eq!(partial(plan_download(Some("bytes=10-y"), 100)), (10, 99, 90, "bytes 10-99/100".to_string()));
    assert_eq!(partial(plan_download(Some("bytes=10-20-30"), 100)), (10, 20, 11, "bytes 10-20/100".to_string()));
}

#[test]
fn download_unservable_ranges() {
    assert!(matches!(plan_download(Some("bytes=10-5"), 100), DownloadPlan::Unserved));
    assert!(matches!(plan_download(Some("bytes=0-100"), 100), DownloadPlan::Unserved));
    assert!(matches!(plan_download(Some("bytes=100-"), 100), DownloadPlan::Unserved));
    assert!(matches!(plan_download(Some("bytes=0-0"), 0), DownloadPlan::Unserved));
}

#[test]
fn content_range_text() {
    assert_eq!(content_range(0, 1023, 5000), "bytes 0-1023/5000");
}

#[test]
fn resumed_download_range_scenario() {
    assert_eq!(
        partial(plan_download(Some("bytes=0-1023"), 5000)),
        (0, 1023, 1024, "bytes 0-1023/5000".to_string())
    );
}
