use vstd::prelude::*;

use crate::json::{merge, merge_patch, Json};

verus! {

/// The `python` section of the application configuration.
#[derive(Debug, Clone, PartialEq, Eq)]
pub struct PythonStruct {
    pub version: String,
    pub next_version: String,
}

/// The application configuration stored in `config.json`.
#[derive(Debug, Clone, PartialEq, Eq)]
pub struct AppConfig {
    pub python: PythonStruct,
}

/// Repairs a user configuration that no longer matches the expected shape:
/// the user's file is applied as a patch to the default configuration, so
/// that members the user left out take their default values, members the
/// user set take the user's values, and members the user set to `null` are
/// dropped.
pub fn merge_configs(default_config: Json, user_config: Json) -> (merged: Json)
    ensures
        merged@ == merge_patch(default_config@, user_config@),
{
    let mut merged = default_config;
    merge(&mut merged, user_config);
    merged
}

} // verus!
