//! Where the bar's configuration files are.
use vstd::prelude::*;
use crate::error::BarError;
use crate::tray::{join_path, join_exec};

verus! {

/// Path of the configuration file `name`: in the directory `schrottbar`
/// of the user's configuration directory (`config_dir`, where it is
/// known).
pub fn config_file_path(config_dir: Option<&str>, name: &str) -> (r: Result<String, BarError>)
    ensures
        match config_dir {
            Some(d) => r matches Ok(p) && p@ == join_path(join_path(d@, "schrottbar"@), name@),
            None => r matches Err(e) && (e matches BarError::Local(m) && m@ == "Config directory unknown"@),
        },
{
    match config_dir {
        Some(d) => {
            let sub = "schrottbar".to_owned();
            let dir = join_exec(d, &sub);
            let file = name.to_owned();
            Ok(join_exec(dir.as_str(), &file))
        },
        None => Err(BarError::Local("Config directory unknown".to_owned())),
    }
}

} // verus!
