//! CPU temperature from a thermal zone, in thousandths of a degree.

use vstd::prelude::*;

use crate::utils::{parse_u64_prefix, u64_prefix};
use crate::utils::AppError;

verus! {

/// Thermal-zone reader for the file at `path`.
pub struct ThermalMonitor {
    path: String,
}

impl ThermalMonitor {
    /// A reader of the thermal-zone file `path`.
    pub fn new(path: String) -> (r: Self)
        ensures
            r.path()@ == path@,
    {
        ThermalMonitor { path }
    }

    /// Path of the thermal-zone file.
    pub closed spec fn path(&self) -> String {
        self.path
    }

    /// Path of the thermal-zone file.
    pub fn file_path(&self) -> (r: &str)
        ensures
            r@ == self.path()@,
    {
        self.path.as_str()
    }
}

/// Millidegrees held in the trimmed content of a thermal-zone file: its
/// leading number; a content without one is a parse error.
pub fn read_millidegrees(raw: &str) -> (r: Result<u64, AppError>)
    ensures
        match r {
            Ok(v) => u64_prefix(raw@) == Some(v as nat),
            Err(e) => u64_prefix(raw@) is None && e is Parse,
        },
{
    match parse_u64_prefix(raw) {
        Some(v) => Ok(v),
        None => {
            let mut msg = String::from_str("thermal: 期望整数，实际为 '");
            msg.append(raw);
            msg.append("'");
            Err(AppError::Parse(msg))
        },
    }
}

} // verus!
