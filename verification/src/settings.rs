//! Application settings: defaults, the ranges they are kept in, and the
//! settings held by the manager that persists them.
use vstd::prelude::*;
use crate::error::DiskRipperError;
use crate::text::{owned, push_str, str_eq, string_of};

verus! {

/// Settings that persist across sessions.
#[derive(Debug, Clone)]
pub struct Settings {
    /// Default output directory for ripped files.
    pub default_output_dir: String,
    /// Default read speed (`None`: maximum).
    pub read_speed: Option<u32>,
    /// Whether checksums are verified after a rip.
    pub verify_checksums: bool,
    /// Whether the disc is ejected when done.
    pub eject_after_rip: bool,
    /// Retries on a read error.
    pub read_retries: u32,
    /// Buffer size in MB for reads.
    pub buffer_size_mb: usize,
    /// Log level (trace, debug, info, warn, error).
    pub log_level: String,
    /// Whether audio CDs are extracted.
    pub enable_audio_cd: bool,
    /// Whether audio reads are checked for jitter.
    pub jitter_correction: bool,
    /// Jobs run at once.
    pub max_concurrent_jobs: usize,
    /// Whether work is done in parallel.
    pub enable_parallel: bool,
    /// Theme (dark, light, system).
    pub theme: String,
    /// Language code (en, es, fr, de, ja, zh).
    pub language: String,
}

/// The value of [`Settings`], strings taken as characters.
pub struct SettingsView {
    pub default_output_dir: Seq<char>,
    pub read_speed: Option<u32>,
    pub verify_checksums: bool,
    pub eject_after_rip: bool,
    pub read_retries: u32,
    pub buffer_size_mb: usize,
    pub log_level: Seq<char>,
    pub enable_audio_cd: bool,
    pub jitter_correction: bool,
    pub max_concurrent_jobs: usize,
    pub enable_parallel: bool,
    pub theme: Seq<char>,
    pub language: Seq<char>,
}

impl View for Settings {
    type V = SettingsView;

    open spec fn view(&self) -> SettingsView {
        SettingsView {
            default_output_dir: self.default_output_dir@,
            read_speed: self.read_speed,
            verify_checksums: self.verify_checksums,
            eject_after_rip: self.eject_after_rip,
            read_retries: self.read_retries,
            buffer_size_mb: self.buffer_size_mb,
            log_level: self.log_level@,
            enable_audio_cd: self.enable_audio_cd,
            jitter_correction: self.jitter_correction,
            max_concurrent_jobs: self.max_concurrent_jobs,
            enable_parallel: self.enable_parallel,
            theme: self.theme@,
            language: self.language@,
        }
    }
}

/// `base` joined with the relative path `name` (`Path::join`): a `/` is put
/// between them unless `base` is empty or already ends with one.
pub open spec fn path_join(base: Seq<char>, name: Seq<char>) -> Seq<char> {
    if base.len() == 0 {
        name
    } else if base.last() == '/' {
        base + name
    } else {
        base + "/"@ + name
    }
}

/// The default settings for a user whose home directory is `home` (empty
/// where it is unknown): output under `DiskRipper` in it.
pub open spec fn default_view(home: Seq<char>) -> SettingsView {
    SettingsView {
        default_output_dir: path_join(home, "DiskRipper"@),
        read_speed: None,
        verify_checksums: true,
        eject_after_rip: false,
        read_retries: 3,
        buffer_size_mb: 4,
        log_level: "info"@,
        enable_audio_cd: true,
        jitter_correction: true,
        max_concurrent_jobs: 2,
        enable_parallel: true,
        theme: "dark"@,
        language: "en"@,
    }
}

/// `x` kept between `lo` and `hi`.
pub open spec fn clamp(x: int, lo: int, hi: int) -> int {
    if x < lo {
        lo
    } else if x > hi {
        hi
    } else {
        x
    }
}

/// Whether `l` is a known log level.
pub open spec fn known_level(l: Seq<char>) -> bool {
    l == "trace"@ || l == "debug"@ || l == "info"@ || l == "warn"@ || l == "error"@
}

/// Whether `t` is a known theme.
pub open spec fn known_theme(t: Seq<char>) -> bool {
    t == "dark"@ || t == "light"@ || t == "system"@
}

/// Whether `l` is a supported language code.
pub open spec fn known_language(l: Seq<char>) -> bool {
    l == "en"@ || l == "es"@ || l == "fr"@ || l == "de"@ || l == "ja"@ || l == "zh"@
}

/// Settings with every value brought into its range: at most 10 retries,
/// 1 to 64 MB of buffer, 1 to 8 jobs, a read speed of 1 to 48 where one is
/// set, and unknown log level, theme or language replaced by `info`,
/// `dark`, `en`.
pub open spec fn validated(s: SettingsView) -> SettingsView {
    SettingsView {
        read_retries: if s.read_retries > 10 {
            10
        } else {
            s.read_retries
        },
        buffer_size_mb: clamp(s.buffer_size_mb as int, 1, 64) as usize,
        max_concurrent_jobs: clamp(s.max_concurrent_jobs as int, 1, 8) as usize,
        log_level: if known_level(s.log_level) {
            s.log_level
        } else {
            "info"@
        },
        theme: if known_theme(s.theme) {
            s.theme
        } else {
            "dark"@
        },
        language: if known_language(s.language) {
            s.language
        } else {
            "en"@
        },
        read_speed: match s.read_speed {
            Some(v) => Some(clamp(v as int, 1, 48) as u32),
            None => None,
        },
        ..s
    }
}

/// Whether every value is in its range.
pub open spec fn is_valid(s: SettingsView) -> bool {
    &&& s.read_retries <= 10
    &&& 1 <= s.buffer_size_mb <= 64
    &&& 1 <= s.max_concurrent_jobs <= 8
    &&& known_level(s.log_level)
    &&& known_theme(s.theme)
    &&& known_language(s.language)
    &&& s.read_speed matches Some(v) ==> 1 <= v <= 48
}

/// Validation brings every value into its range.
pub proof fn lemma_validated_is_valid(s: SettingsView)
    ensures
        is_valid(validated(s)),
{
}

/// Validating twice changes nothing more than validating once.
pub proof fn lemma_validate_idempotent(s: SettingsView)
    ensures
        validated(validated(s)) == validated(s),
{
}

/// Valid settings are left as they are.
pub proof fn lemma_valid_unchanged(s: SettingsView)
    requires
        is_valid(s),
    ensures
        validated(s) == s,
{
}

/// `dirs::home_dir()`: the user's home directory as text, `None` where the
/// environment gives none. It depends on the environment, so the contract
/// says nothing of it.
#[verifier::external_body]
fn home_dir() -> (r: Option<String>) {
    dirs::home_dir().map(|p| p.to_string_lossy().into_owned())
}

/// `base` joined with `name`.
pub fn join_path(base: &str, name: &str) -> (r: String)
    ensures
        r@ == path_join(base@, name@),
{
    let b = crate::text::chars_of(base);
    let mut out: Vec<char> = Vec::new();
    push_str(&mut out, base);
    if b.len() > 0 && b[b.len() - 1] != '/' {
        push_str(&mut out, "/");
    }
    push_str(&mut out, name);
    proof {
        if b@.len() == 0 {
            assert(out@ =~= name@);
        }
    }
    string_of(out.as_slice())
}

/// `Some(x)` clamped between 1 and 48, `None` kept.
fn clamp_speed(speed: Option<u32>) -> (r: Option<u32>)
    ensures
        r == match speed {
            Some(v) => Some(clamp(v as int, 1, 48) as u32),
            None => None::<u32>,
        },
{
    match speed {
        Some(v) => Some(if v < 1 {
            1
        } else if v > 48 {
            48
        } else {
            v
        }),
        None => None,
    }
}

/// Whether `l` is a known log level.
fn is_known_level(l: &str) -> (r: bool)
    ensures
        r == known_level(l@),
{
    str_eq(l, "trace") || str_eq(l, "debug") || str_eq(l, "info") || str_eq(l, "warn") || str_eq(
        l,
        "error",
    )
}

/// Whether `t` is a known theme.
fn is_known_theme(t: &str) -> (r: bool)
    ensures
        r == known_theme(t@),
{
    str_eq(t, "dark") || str_eq(t, "light") || str_eq(t, "system")
}

/// Whether `l` is a supported language code.
fn is_known_language(l: &str) -> (r: bool)
    ensures
        r == known_language(l@),
{
    str_eq(l, "en") || str_eq(l, "es") || str_eq(l, "fr") || str_eq(l, "de") || str_eq(l, "ja")
        || str_eq(l, "zh")
}

impl Settings {
    /// The default settings for a user whose home directory is `home`.
    pub fn defaults_for_home(home: &str) -> (r: Self)
        ensures
            r@ == default_view(home@),
    {
        Settings {
            default_output_dir: join_path(home, "DiskRipper"),
            read_speed: None,
            verify_checksums: true,
            eject_after_rip: false,
            read_retries: 3,
            buffer_size_mb: 4,
            log_level: owned("info"),
            enable_audio_cd: true,
            jitter_correction: true,
            max_concurrent_jobs: 2,
            enable_parallel: true,
            theme: owned("dark"),
            language: owned("en"),
        }
    }

    /// A copy of the settings.
    pub fn copy(&self) -> (r: Self)
        ensures
            r@ == self@,
    {
        Settings {
            default_output_dir: self.default_output_dir.clone(),
            read_speed: self.read_speed,
            verify_checksums: self.verify_checksums,
            eject_after_rip: self.eject_after_rip,
            read_retries: self.read_retries,
            buffer_size_mb: self.buffer_size_mb,
            log_level: self.log_level.clone(),
            enable_audio_cd: self.enable_audio_cd,
            jitter_correction: self.jitter_correction,
            max_concurrent_jobs: self.max_concurrent_jobs,
            enable_parallel: self.enable_parallel,
            theme: self.theme.clone(),
            language: self.language.clone(),
        }
    }

    /// Brings every value into its range.
    pub fn validate(&mut self)
        ensures
            final(self)@ == validated(old(self)@),
    {
        if self.read_retries > 10 {
            self.read_retries = 10;
        }
        self.buffer_size_mb = if self.buffer_size_mb < 1 {
            1
        } else if self.buffer_size_mb > 64 {
            64
        } else {
            self.buffer_size_mb
        };
        self.max_concurrent_jobs = if self.max_concurrent_jobs < 1 {
            1
        } else if self.max_concurrent_jobs > 8 {
            8
        } else {
            self.max_concurrent_jobs
        };
        if !is_known_level(self.log_level.as_str()) {
            self.log_level = owned("info");
        }
        if !is_known_theme(self.theme.as_str()) {
            self.theme = owned("dark");
        }
        if !is_known_language(self.language.as_str()) {
            self.language = owned("en");
        }
        self.read_speed = clamp_speed(self.read_speed);
    }
}

impl Default for Settings {
    /// The defaults for the current user.
    fn default() -> (r: Self)
        ensures
            exists|home: Seq<char>| r@ == default_view(home),
    {
        let home = match home_dir() {
            Some(h) => h,
            None => owned(""),
        };
        Settings::defaults_for_home(home.as_str())
    }
}

/// Whether `r` is what merging `s` with the defaults gives: an empty
/// output directory filled with the default one (under some home
/// directory), then the whole validated.
pub open spec fn merged_from(s: SettingsView, r: SettingsView) -> bool {
    &&& s.default_output_dir.len() > 0 ==> r == validated(s)
    &&& s.default_output_dir.len() == 0 ==> exists|home: Seq<char>|
        r == validated(
            SettingsView { default_output_dir: #[trigger] path_join(home, "DiskRipper"@), ..s },
        )
    &&& r.default_output_dir.len() > 0
    &&& is_valid(r)
}

impl Settings {
    /// Fills an empty output directory with the default one, then
    /// validates.
    pub fn merge_defaults(&mut self)
        ensures
            old(self)@.default_output_dir.len() > 0 ==> final(self)@ == validated(old(self)@),
            old(self)@.default_output_dir.len() == 0 ==> exists|home: Seq<char>|
                final(self)@ == validated(
                    SettingsView {
                        default_output_dir: #[trigger] path_join(home, "DiskRipper"@),
                        ..old(self)@
                    },
                ),
            final(self)@.default_output_dir.len() > 0,
            is_valid(final(self)@),
            merged_from(old(self)@, final(self)@),
    {
        let defaults = Settings::default();
        if self.default_output_dir.as_str().is_empty() {
            self.default_output_dir = defaults.default_output_dir;
        }
        proof {
            reveal_strlit("DiskRipper");
        }
        self.validate();
    }
}

/// Loads and saves the settings; this part holds the settings file's path
/// and the settings in force.
pub struct SettingsManager {
    settings_path: String,
    settings: Settings,
}

impl SettingsManager {
    /// The settings file.
    pub closed spec fn file(&self) -> Seq<char> {
        self.settings_path@
    }

    /// The settings in force.
    pub closed spec fn current(&self) -> SettingsView {
        self.settings@
    }

    /// A manager for the settings file `settings.json` in `app_dir`, with
    /// the settings read from it (merged with the defaults) where there
    /// were any, else the defaults.
    pub fn from_loaded(app_dir: &str, loaded: Option<Settings>) -> (r: Self)
        ensures
            r.file() == path_join(app_dir@, "settings.json"@),
            is_valid(r.current()) || loaded is None,
            loaded is Some ==> r.current().default_output_dir.len() > 0,
    {
        let settings_path = join_path(app_dir, "settings.json");
        let settings = match loaded {
            Some(s) => {
                let mut s = s;
                s.merge_defaults();
                s
            },
            None => Settings::default(),
        };
        SettingsManager { settings_path, settings }
    }

    /// A copy of the settings in force.
    pub fn get(&self) -> (r: Settings)
        ensures
            r@ == self.current(),
    {
        self.settings.copy()
    }

    /// Puts `settings` in force.
    pub fn set(&mut self, settings: Settings)
        ensures
            final(self).current() == settings@,
            final(self).file() == old(self).file(),
    {
        self.settings = settings;
    }

    /// Merges `new_settings` with the defaults and gives the result back
    /// for saving; the settings in force do not change until the save is
    /// committed.
    pub fn update(&self, new_settings: Settings) -> (r: Settings)
        ensures
            merged_from(new_settings@, r@),
    {
        let mut s = new_settings;
        s.merge_defaults();
        s
    }

    /// Changes a copy of the settings in force with `f`, then merges what
    /// it gave as `update` does; gives the result back for saving.
    pub fn update_field<F: FnOnce(Settings) -> Settings>(&self, f: F) -> (r: Settings)
        requires
            forall|s: Settings| #[trigger] f.requires((s,)),
        ensures
            exists|a: Settings, b: Settings|
                a@ == self.current() && #[trigger] f.ensures((a,), b) && merged_from(b@, r@),
    {
        let current = self.get();
        let changed = f(current);
        self.update(changed)
    }

    /// The defaults, merged as `update` does, given back for saving.
    pub fn reset(&self) -> (r: Settings)
        ensures
            exists|home: Seq<char>| merged_from(#[trigger] default_view(home), r@),
    {
        let defaults = Settings::default();
        self.update(defaults)
    }

    /// Takes the outcome of saving `settings`: a save that succeeded puts
    /// them in force; a failed one leaves the settings in force as they
    /// were and gives its error back.
    pub fn commit(&mut self, settings: Settings, saved: Result<(), DiskRipperError>) -> (r: Result<
        (),
        DiskRipperError,
    >)
        ensures
            r == saved,
            saved is Ok ==> final(self).current() == settings@,
            saved is Err ==> final(self).current() == old(self).current(),
            final(self).file() == old(self).file(),
    {
        if saved.is_ok() {
            self.settings = settings;
        }
        saved
    }

    /// The settings file.
    pub fn path(&self) -> (r: &str)
        ensures
            r@ == self.file(),
    {
        self.settings_path.as_str()
    }
}

} // verus!
