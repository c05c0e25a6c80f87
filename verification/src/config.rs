use vstd::prelude::*;

verus! {

/// One schedule slot per minute of a day.
pub const MAX_IMAGES_NUMBER: usize = 1440;

pub const MINUTE_SECS: u64 = 60;

pub const TEN_MINUTES_SECS: u64 = 60 * 10;

pub const HALF_HOUR_SECS: u64 = 60 * 30;

pub const HOUR_SECS: u64 = 60 * 60;

/// Where the surrounding daemon stores its error log.
#[derive(Debug, Clone, Copy, PartialEq, Eq, Structural)]
pub enum DebugMode {
    /// Errors not saved.
    Off,
    /// Errors saved under the system's temporary directory.
    TempFile,
    /// Errors saved under the user's configuration directory.
    File,
}

impl Default for DebugMode {
    fn default() -> (r: Self)
        ensures
            r == DebugMode::TempFile,
    {
        DebugMode::TempFile
    }
}

impl DebugMode {
    /// Where this mode stores the log, with the home directory handed in as
    /// a plain value; only `File` needs one.
    pub fn location(&self, home: Option<&String>) -> (r: Option<String>)
        requires
            self == DebugMode::File ==> home is Some,
        ensures
            self == DebugMode::Off ==> r is None,
            self == DebugMode::TempFile ==> r is Some && r->0@ == "/tmp/gpaper.log"@,
            self == DebugMode::File ==> r is Some && r->0@ == home->0@ + "/"@
                + ".config/gpaper/gpaper.log"@,
    {
        match self {
            DebugMode::Off => None,
            DebugMode::TempFile => Some(String::from_str("/tmp/gpaper.log")),
            DebugMode::File => {
                let home_path = home.unwrap().clone();
                Some(home_path.concat("/").concat(".config/gpaper/gpaper.log"))
            },
        }
    }
}

/// How often the daemon reloads the wallpaper selection.
#[derive(Debug, Clone, Copy, PartialEq, Eq, Structural)]
pub enum Accuracy {
    /// Every minute is reloaded.
    Standard,
    /// Every 10 minutes is reloaded.
    Lazy,
    /// Every half hour is reloaded.
    HalfHourly,
    /// Every hour is reloaded.
    Hourly,
}

impl Default for Accuracy {
    fn default() -> (r: Self)
        ensures
            r == Accuracy::Standard,
    {
        Accuracy::Standard
    }
}

impl Accuracy {
    /// The reload interval, in seconds.
    pub fn duration(&self) -> (r: u64)
        ensures
            self == Accuracy::Standard ==> r == MINUTE_SECS,
            self == Accuracy::Lazy ==> r == TEN_MINUTES_SECS,
            self == Accuracy::HalfHourly ==> r == HALF_HOUR_SECS,
            self == Accuracy::Hourly ==> r == HOUR_SECS,
    {
        match self {
            Accuracy::Standard => MINUTE_SECS,
            Accuracy::Lazy => TEN_MINUTES_SECS,
            Accuracy::HalfHourly => HALF_HOUR_SECS,
            Accuracy::Hourly => HOUR_SECS,
        }
    }
}

/// Read-only inputs to the surrounding daemon; the selection core never reads them.
#[derive(Debug, Clone, Copy, PartialEq, Eq, Structural)]
pub struct Config {
    /// Errors storage.
    pub debug_mode: DebugMode,
    /// Daemon reload interval.
    pub accuracy: Accuracy,
    /// Indicates if the daemon runs at start.
    pub is_active: bool,
}

impl Config {
    /// The configuration a fresh scheduler starts from.
    pub open spec fn spec_default() -> Config {
        Config { debug_mode: DebugMode::TempFile, accuracy: Accuracy::Standard, is_active: true }
    }

    pub fn default() -> (r: Config)
        ensures
            r == Config::spec_default(),
    {
        Config {
            debug_mode: DebugMode::default(),
            accuracy: Accuracy::default(),
            is_active: true,
        }
    }
}

} // verus!
