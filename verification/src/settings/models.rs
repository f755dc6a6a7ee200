//! The application settings.

use vstd::prelude::*;

verus! {

/// The application settings.
#[derive(Debug, PartialEq, Eq)]
pub struct AppSettings {
    pub default_save_path: String,
}

impl Default for AppSettings {
    /// No default save path.
    fn default() -> (r: AppSettings)
        ensures
            r.default_save_path@ == Seq::<char>::empty(),
    {
        AppSettings { default_save_path: String::new() }
    }
}

} // verus!
