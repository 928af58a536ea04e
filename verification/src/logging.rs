//! Where logs, configuration and caches live.
use vstd::prelude::*;
use crate::settings::{join_path, path_join};
use crate::text::owned;

verus! {

/// `dirs::data_dir()` as text; it depends on the environment, so nothing
/// is stated of it.
#[verifier::external_body]
fn data_dir() -> (r: Option<String>) {
    dirs::data_dir().map(|p| p.to_string_lossy().into_owned())
}

/// `dirs::config_dir()` as text; it depends on the environment, so
/// nothing is stated of it.
#[verifier::external_body]
fn config_dir() -> (r: Option<String>) {
    dirs::config_dir().map(|p| p.to_string_lossy().into_owned())
}

/// `dirs::cache_dir()` as text; it depends on the environment, so nothing
/// is stated of it.
#[verifier::external_body]
fn cache_dir() -> (r: Option<String>) {
    dirs::cache_dir().map(|p| p.to_string_lossy().into_owned())
}

/// The optional text of an optional string.
pub open spec fn opt_dir(o: Option<String>) -> Option<Seq<char>> {
    match o {
        Some(s) => Some(s@),
        None => None,
    }
}

/// The log directory under the data directory `d`, or `./logs`.
pub open spec fn log_dir_text(d: Option<Seq<char>>) -> Seq<char> {
    match d {
        Some(d) => path_join(path_join(d, "DiskRipper"@), "logs"@),
        None => "./logs"@,
    }
}

/// The application's directory under a base directory `d`, or `fallback`.
pub open spec fn app_dir_text(d: Option<Seq<char>>, fallback: Seq<char>) -> Seq<char> {
    match d {
        Some(d) => path_join(d, "DiskRipper"@),
        None => fallback,
    }
}

/// The log directory under the data directory `data`, or `./logs`.
pub fn log_dir_in(data: &Option<String>) -> (r: String)
    ensures
        r@ == log_dir_text(opt_dir(*data)),
{
    match data {
        Some(d) => {
            let a = join_path(d.as_str(), "DiskRipper");
            join_path(a.as_str(), "logs")
        },
        None => owned("./logs"),
    }
}

/// The application's directory under `base`, or `fallback`.
pub fn app_dir_in(base: &Option<String>, fallback: &str) -> (r: String)
    ensures
        r@ == app_dir_text(opt_dir(*base), fallback@),
{
    match base {
        Some(d) => join_path(d.as_str(), "DiskRipper"),
        None => owned(fallback),
    }
}

/// The log directory of this user.
pub fn get_log_dir() -> (r: String)
    ensures
        exists|d: Option<Seq<char>>| r@ == log_dir_text(d),
{
    let d = data_dir();
    log_dir_in(&d)
}

/// The configuration directory of this user, or `./config`.
pub fn get_config_dir() -> (r: String)
    ensures
        exists|d: Option<Seq<char>>| r@ == app_dir_text(d, "./config"@),
{
    let d = config_dir();
    app_dir_in(&d, "./config")
}

/// The cache directory of this user, or `./cache`.
pub fn get_cache_dir() -> (r: String)
    ensures
        exists|d: Option<Seq<char>>| r@ == app_dir_text(d, "./cache"@),
{
    let d = cache_dir();
    app_dir_in(&d, "./cache")
}

} // verus!
