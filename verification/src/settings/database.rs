//! Reading the settings, and checking a save path. The settings table
//! (SQLite) and the file system are read by the caller, which hands the
//! results here.

use vstd::prelude::*;

use crate::settings::models::AppSettings;

verus! {

/// The key under which the default save path is stored.
pub const DEFAULT_SAVE_PATH_KEY: &'static str = "default_save_path";

/// The settings, given the stored default save path where one was read.
pub fn get_all_settings(stored_default_save_path: Option<String>) -> (r: AppSettings)
    ensures
        r.default_save_path@ == (match stored_default_save_path {
            Some(v) => v@,
            None => Seq::<char>::empty(),
        }),
{
    let mut settings = AppSettings::default();
    match stored_default_save_path {
        Some(value) => {
            settings.default_save_path = value;
        },
        None => {},
    }
    settings
}

/// What the file system says of a path, each fact asked only where the
/// previous one held: whether it exists, whether it is a directory, and
/// whether a file can be created in it.
#[derive(Clone, Copy, Debug, PartialEq, Eq)]
pub struct PathProbe {
    pub exists: bool,
    pub is_dir: bool,
    pub writable: bool,
}

/// Why a path cannot be a save path, where it cannot: it is empty, does not
/// exist, is not a directory, or cannot be written to, checked in that order.
pub open spec fn path_error(path: Seq<char>, probe: PathProbe) -> Option<Seq<char>> {
    if path.len() == 0 {
        Some("路径不能为空"@)
    } else if !probe.exists {
        Some("路径不存在"@)
    } else if !probe.is_dir {
        Some("路径不是文件夹"@)
    } else if !probe.writable {
        Some("没有写入权限"@)
    } else {
        None
    }
}

/// Checks that `path` can serve as a save path.
pub fn validate_path(path: &str, probe: &PathProbe) -> (r: Result<(), String>)
    ensures
        match r {
            Ok(()) => path_error(path@, *probe) is None,
            Err(e) => path_error(path@, *probe) == Some(e@),
        },
{
    if path.is_empty() {
        return Err(String::from_str("路径不能为空"));
    }
    if !probe.exists {
        return Err(String::from_str("路径不存在"));
    }
    if !probe.is_dir {
        return Err(String::from_str("路径不是文件夹"));
    }
    if !probe.writable {
        return Err(String::from_str("没有写入权限"));
    }
    Ok(())
}

} // verus!
