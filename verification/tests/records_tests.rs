use lan_transmission::confirm::protocol::{
    confirm_request_at, create_confirm_request, create_confirm_response, ConfirmStatus, FileInfo,
};
use lan_transmission::history::database::{
    add_file_record, add_transfer, file_record_at, status_update_at, transfer_record_at,
    update_status, HISTORY_LIMIT,
};
use lan_transmission::settings::database::{get_all_settings, validate_path, PathProbe, DEFAULT_SAVE_PATH_KEY};
use lan_transmission::settings::models::AppSettings;

fn files() -> Vec<FileInfo> {
    vec![FileInfo { file_id: "f".to_string(), name: "a".to_string(), size: 1, file_type: "bin".to_string(), relative_path: Some("d\\a".to_string()) }]
}

#[test]
fn confirm_messages() {
    let r = confirm_request_at("t".to_string(), "s".to_string(), "n".to_string(), files(), 1, 99);
    assert_eq!(r.transfer_id, "t");
    assert_eq!(r.sender_id, "s");
    assert_eq!(r.sender_name, "n");
    assert_eq!(r.files, files());
    assert_eq!(r.total_size, 1);
    assert_eq!(r.timestamp, 99);
    let now = create_confirm_request("t".to_string(), "s".to_string(), "n".to_string(), files(), 1);
    assert!(now.timestamp > 1_600_000_000);
    let resp = create_confirm_response("t".to_string(), false, Some("busy".to_string()));
    assert_eq!(resp.transfer_id, "t");
    assert!(!resp.accepted);
    assert_eq!(resp.reason, Some("busy".to_string()));
    assert_ne!(ConfirmStatus::Pending, ConfirmStatus::Timeout);
}

#[test]
fn new_transfer_row_is_pending() {
    let r = transfer_record_at("t", "send", "p", "peer", "192.168.1.4", 100, 77);
    assert_eq!(r.id, "t");
    assert_eq!(r.direction, "send");
    assert_eq!(r.status, "pending");
    assert_eq!(r.peer_device_id, "p");
    assert_eq!(r.peer_device_name, "peer");
    assert_eq!(r.peer_ip, Some("192.168.1.4".to_string()));
    assert_eq!(r.total_size, 100);
    assert_eq!(r.transferred_size, 0);
    assert_eq!(r.created_at, 77);
    assert_eq!(r.completed_at, None);
    let now = add_transfer("t", "receive", "p", "peer", "", 5);
    assert!(now.created_at > 1_600_000_000);
    assert_eq!(HISTORY_LIMIT, 100);
}

#[test]
fn new_file_row() {
    let f = file_record_at("f", "t", "a.txt", Some("/x/a.txt"), 3, None, "done", 8);
    assert_eq!(f.id, "f");
    assert_eq!(f.transfer_id, "t");
    assert_eq!(f.name, "a.txt");
    assert_eq!(f.path, Some("/x/a.txt".to_string()));
    assert_eq!(f.size, 3);
    assert_eq!(f.md5, None);
    assert_eq!(f.status, "done");
    assert_eq!(f.created_at, 8);
    let g = add_file_record("f", "t", "a.txt", None, 3, Some("abc"), "pending");
    assert_eq!(g.md5, Some("abc".to_string()));
    assert_eq!(g.path, None);
}

#[test]
fn completion_time_only_on_completed() {
    let u = status_update_at("completed", 100, 42);
    assert_eq!(u.status, "completed");
    assert_eq!(u.transferred_size, 100);
    assert_eq!(u.completed_at, Some(42));
    let u = status_update_at("in_progress", 50, 42);
    assert_eq!(u.completed_at, None);
    let u = status_update_at("Completed", 50, 42);
    assert_eq!(u.completed_at, None);
    assert!(update_status("completed", 1).completed_at.is_some());
    assert!(update_status("cancelled", 1).completed_at.is_none());
}

#[test]
fn settings_from_store() {
    assert_eq!(AppSettings::default().default_save_path, "");
    assert_eq!(get_all_settings(None).default_save_path, "");
    assert_eq!(get_all_settings(Some("/data".to_string())).default_save_path, "/data");
    assert_eq!(DEFAULT_SAVE_PATH_KEY, "default_save_path");
}

#[test]
fn validate_path_errors_in_order() {
    let ok = PathProbe { exists: true, is_dir: true, writable: true };
    assert_eq!(validate_path("/save", &ok), Ok(()));
    assert_eq!(validate_path("", &ok), Err("路径不能为空".to_string()));
    let missing = PathProbe { exists: false, is_dir: false, writable: false };
    assert_eq!(validate_path("/nope", &missing), Err("路径不存在".to_string()));
    let file = PathProbe { exists: true, is_dir: false, writable: true };
    assert_eq!(validate_path("/f", &file), Err("路径不是文件夹".to_string()));
    let ro = PathProbe { exists: true, is_dir: true, writable: false };
    assert_eq!(validate_path("/ro", &ro), Err("没有写入权限".to_string()));
}
