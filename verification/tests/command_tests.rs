use lan_transmission::commands::{
    endpoint_url, folder_file_entries, resume_point, upload_failed, upload_status_result,
    upload_succeeded, ResumePoint, WalkedFile, UPLOAD_PATH, UPLOAD_STATUS_PATH,
};
use lan_transmission::{UploadResult, UploadStatusResult};

#[test]
fn endpoint_urls() {
    assert_eq!(endpoint_url("192.168.1.8", 8080, UPLOAD_PATH), "http://192.168.1.8:8080/api/upload");
    assert_eq!(endpoint_url("10.0.0.1", 80, UPLOAD_STATUS_PATH), "http://10.0.0.1:80/api/upload/status");
}

#[test]
fn upload_status_results() {
    assert_eq!(upload_status_result(true, Some(true), Some(300)), UploadStatusResult { success: true, exists: true, received_size: 300 });
    assert_eq!(upload_status_result(true, None, None), UploadStatusResult { success: true, exists: false, received_size: 0 });
    assert_eq!(upload_status_result(false, Some(true), Some(300)), UploadStatusResult { success: false, exists: false, received_size: 0 });
}

#[test]
fn resume_points() {
    assert_eq!(resume_point(100, None), ResumePoint { start_offset: 0, send_from: 0 });
    assert_eq!(resume_point(100, Some(40)), ResumePoint { start_offset: 40, send_from: 40 });
    assert_eq!(resume_point(100, Some(100)), ResumePoint { start_offset: 100, send_from: 0 });
    assert_eq!(resume_point(100, Some(500)), ResumePoint { start_offset: 500, send_from: 0 });
}

#[test]
fn resumed_upload_reports_whole_file() {
    let len = 100u64;
    let r = resume_point(len, Some(40));
    let sent = len - r.send_from;
    let res = upload_succeeded(r.start_offset, sent);
    assert_eq!(res, UploadResult { success: true, message: "上传成功".to_string(), transferred_size: 100 });
    let f = upload_failed("上传失败: 500".to_string());
    assert!(!f.success);
    assert_eq!(f.message, "上传失败: 500");
    assert_eq!(f.transferred_size, 0);
}

fn walked(name: &str, rel: Option<&str>, is_file: bool, size: u64) -> WalkedFile {
    WalkedFile {
        name: name.to_string(),
        path: format!("/root/docs/{}", rel.unwrap_or(name)),
        size,
        is_file,
        relative: rel.map(|r| r.to_string()),
    }
}

#[test]
fn folder_entries_number_files_only() {
    let w = vec![
        walked("docs", None, false, 0),
        walked("a.txt", Some("a.txt"), true, 3),
        walked("sub", Some("sub"), false, 0),
        walked("b.bin", Some("sub/b.bin"), true, 7),
        walked("odd", None, true, 1),
    ];
    let e = folder_file_entries("docs", &w);
    assert_eq!(e.len(), 3);
    assert_eq!(e[0].id, "file_0");
    assert_eq!(e[0].name, "a.txt");
    assert_eq!(e[0].relative_path, "docs\\a.txt");
    assert_eq!(e[0].size, 3);
    assert!(!e[0].is_dir);
    assert_eq!(e[1].id, "file_1");
    assert_eq!(e[1].relative_path, "docs\\sub/b.bin");
    assert_eq!(e[1].path, "/root/docs/sub/b.bin");
    assert_eq!(e[2].id, "file_2");
    assert_eq!(e[2].relative_path, "odd");
}
