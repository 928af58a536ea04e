//! Crash reports: what a report holds, which files in the crash directory
//! are reports, and their order.
use vstd::prelude::*;
use std::collections::HashMap;
use crate::error::{DiskRipperError, error_text};
use crate::settings::path_join;
use crate::text::{concat, owned, has_prefix, has_suffix, starts_with_str, ends_with_str};
use crate::types::random_uuid;

verus! {

/// Reports crashes as files in one directory.
pub struct CrashReporter {
    crash_dir: String,
    enabled: bool,
}

/// A crash report.
pub struct CrashReport {
    pub id: String,
    /// When the crash happened, in milliseconds since the Unix epoch.
    pub timestamp: i64,
    pub error_message: String,
    pub component: String,
    pub os_name: String,
    pub architecture: String,
    pub num_cpus: usize,
    pub app_version: String,
}

/// Error statistics.
pub struct ErrorStats {
    pub total_crashes: u64,
    /// When the last crash happened, in milliseconds since the Unix epoch.
    pub last_crash: Option<i64>,
    pub most_common_error: Option<String>,
    pub errors_by_component: HashMap<String, u64>,
}

/// What a report records of the machine and the program.
pub struct Platform {
    pub os_name: String,
    pub architecture: String,
    pub app_version: String,
}

/// The number of logical processors, from `num_cpus::get`, which its
/// documentation says is always at least one.
#[verifier::external_body]
pub(crate) fn cpu_count() -> (r: usize)
    ensures
        r >= 1,
{
    num_cpus::get()
}

/// The current time in milliseconds since the Unix epoch, from
/// `chrono::Utc::now`. The clock decides it; nothing is stated of it.
#[verifier::external_body]
fn now_millis() -> (r: i64) {
    chrono::Utc::now().timestamp_millis()
}

/// The name of the file that holds the report `id`.
pub open spec fn report_file_text(id: Seq<char>) -> Seq<char> {
    "crash_"@ + id + ".json"@
}

impl CrashReporter {
    /// The directory that holds the reports.
    pub closed spec fn dir(&self) -> Seq<char> {
        self.crash_dir@
    }

    /// Whether crashes are reported.
    pub closed spec fn on(&self) -> bool {
        self.enabled
    }

    /// A reporter for the directory `crash_dir` (which the caller has
    /// created), with reporting on.
    pub fn with_dir(crash_dir: &str) -> (r: Self)
        ensures
            r.dir() == crash_dir@,
            r.on(),
    {
        CrashReporter { crash_dir: owned(crash_dir), enabled: true }
    }

    /// Turns reporting on or off.
    pub fn set_enabled(&mut self, enabled: bool)
        ensures
            final(self).on() == enabled,
            final(self).dir() == old(self).dir(),
    {
        self.enabled = enabled;
    }

    /// Whether crashes are reported.
    pub fn is_enabled(&self) -> (r: bool)
        ensures
            r == self.on(),
    {
        self.enabled
    }

    /// The directory that holds the reports.
    pub fn crash_dir(&self) -> (r: &str)
        ensures
            r@ == self.dir(),
    {
        self.crash_dir.as_str()
    }

    /// The report of `error` in `component`: a fresh identifier, the
    /// current time, the error's message, and the machine's description;
    /// an error where reporting is off.
    pub fn capture_crash(&self, error: &DiskRipperError, component: &str, platform: &Platform) -> (r:
        Result<CrashReport, DiskRipperError>)
        ensures
            !self.on() ==> (r matches Err(DiskRipperError::Io(m)) && m@ == "Crash reporting disabled"@),
            self.on() ==> r is Ok,
            r matches Ok(rep) ==> {
                &&& rep.id@.len() == 36
                &&& rep.error_message@ == error_text(*error)
                &&& rep.component@ == component@
                &&& rep.os_name@ == platform.os_name@
                &&& rep.architecture@ == platform.architecture@
                &&& rep.app_version@ == platform.app_version@
                &&& rep.num_cpus >= 1
            },
    {
        if !self.enabled {
            proof {
                reveal_strlit("Crash reporting disabled");
            }
            return Err(DiskRipperError::Io(owned("Crash reporting disabled")));
        }
        Ok(
            CrashReport {
                id: random_uuid(),
                timestamp: now_millis(),
                error_message: error.message(),
                component: owned(component),
                os_name: owned(platform.os_name.as_str()),
                architecture: owned(platform.architecture.as_str()),
                num_cpus: cpu_count(),
                app_version: owned(platform.app_version.as_str()),
            },
        )
    }

    /// The path of the file that holds the report `id`.
    pub fn report_path(&self, id: &str) -> (r: String)
        ensures
            r@ == path_join(self.dir(), report_file_text(id@)),
    {
        let name = report_file_name(id);
        crate::settings::join_path(self.crash_dir.as_str(), name.as_str())
    }

    /// The path of the statistics file.
    pub fn stats_path(&self) -> (r: String)
        ensures
            r@ == path_join(self.dir(), "error_stats.json"@),
    {
        crate::settings::join_path(self.crash_dir.as_str(), "error_stats.json")
    }
}

/// The name of the file that holds the report `id`.
pub fn report_file_name(id: &str) -> (r: String)
    ensures
        r@ == report_file_text(id@),
{
    let a = concat("crash_", id);
    concat(a.as_str(), ".json")
}

/// Whether a file of the crash directory holds a report: its name begins
/// with `crash_` and ends with `.json`.
pub fn is_report_file(name: &str) -> (r: bool)
    ensures
        r == (has_prefix(name@, "crash_"@) && has_suffix(name@, ".json"@)),
{
    starts_with_str(name, "crash_") && ends_with_str(name, ".json")
}

/// Whether clearing the reports removes a file of the crash directory: its
/// name begins with `crash_`.
pub fn is_crash_file(name: &str) -> (r: bool)
    ensures
        r == has_prefix(name@, "crash_"@),
{
    starts_with_str(name, "crash_")
}

impl ErrorStats {
    /// The statistics where nothing has crashed yet.
    pub fn empty() -> (r: Self)
        ensures
            r.total_crashes == 0,
            r.last_crash is None,
            r.most_common_error is None,
            r.errors_by_component@ == Map::<String, u64>::empty(),
    {
        ErrorStats {
            total_crashes: 0,
            last_crash: None,
            most_common_error: None,
            errors_by_component: HashMap::new(),
        }
    }
}

/// Whether the reports run from the newest to the oldest.
pub open spec fn newest_first(s: Seq<CrashReport>) -> bool {
    forall|i: int, j: int| 0 <= i < j < s.len() ==> s[i].timestamp >= s[j].timestamp
}

/// The reports ordered from the newest to the oldest; reports of one time
/// keep their order.
pub fn sort_newest_first(reports: Vec<CrashReport>) -> (r: Vec<CrashReport>)
    ensures
        newest_first(r@),
        r@.to_multiset() == reports@.to_multiset(),
{
    let mut rest = reports;
    let mut out: Vec<CrashReport> = Vec::new();
    let ghost all = rest@;
    proof {
        broadcast use vstd::seq_lib::group_to_multiset_ensures;
        broadcast use vstd::multiset::group_multiset_axioms;
        assert(out@.to_multiset().len() == 0);
        assert(out@.to_multiset().add(rest@.to_multiset()) =~= all.to_multiset());
    }
    while rest.len() > 0
        invariant
            newest_first(out@),
            out@.to_multiset().add(rest@.to_multiset()) == all.to_multiset(),
        decreases rest.len(),
    {
        let ghost before_rest = rest@;
        let item = rest.pop().unwrap();
        proof {
            broadcast use vstd::seq_lib::group_to_multiset_ensures;
            assert(before_rest =~= rest@.push(item));
        }
        let mut j: usize = 0;
        while j < out.len() && out[j].timestamp > item.timestamp
            invariant
                j <= out.len(),
                forall|k: int| 0 <= k < j ==> out@[k].timestamp > item.timestamp,
            decreases out.len() - j,
        {
            j = j + 1;
        }
        let ghost before = out@;
        out.insert(j, item);
        proof {
            broadcast use vstd::seq_lib::group_to_multiset_ensures;
            broadcast use vstd::multiset::group_multiset_axioms;
            assert(out@.remove(j as int) =~= before);
            assert(out@[j as int] == item);
            assert(out@.to_multiset().count(item) > 0);
            assert(out@.to_multiset() =~= before.to_multiset().insert(item));
            assert forall|a: int, b: int| 0 <= a < b < out@.len() implies out@[a].timestamp
                >= out@[b].timestamp by {
                if b < j {
                    assert(before[a].timestamp >= before[b].timestamp);
                } else if a < j && b == j {
                } else if a < j && b > j {
                    assert(before[a].timestamp >= before[b - 1].timestamp);
                } else if a == j {
                    if j < before.len() {
                        assert(before[j as int].timestamp <= item.timestamp);
                        assert(before[j as int].timestamp >= before[b - 1].timestamp);
                    }
                } else {
                    assert(before[a - 1].timestamp >= before[b - 1].timestamp);
                }
            }
        }
    }
    proof {
        broadcast use vstd::seq_lib::group_to_multiset_ensures;
        broadcast use vstd::multiset::group_multiset_axioms;
        assert(rest@.to_multiset().len() == 0);
        assert(out@.to_multiset().add(rest@.to_multiset()) =~= out@.to_multiset());
    }
    out
}

} // verus!
