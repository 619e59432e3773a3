//! The service configuration as the core consumes it, and the decisions
//! behind reloading it from disk. Reading and writing the file, and the
//! parsing of its markup, stay outside the library; what comes in is the
//! state the file was found in.

use vstd::prelude::*;

use crate::text::str_eq;

verus! {

/// Outcome of a configuration reload: the configuration was updated,
/// written, or initialized — or some error was encountered.
#[derive(Clone, Copy, Debug, PartialEq, Eq, Structural)]
pub enum ConfigReloadResult {
    Reloaded,
    Failed,
}

/// Verbosity of the service's logging.
#[derive(Clone, Copy, Debug, PartialEq, Eq, Structural)]
pub enum LogLevel {
    Trace,
    Debug,
    Info,
    Warn,
    Error,
}

/// The options the service runs under. Paths are plain strings; the shell
/// around the library turns them into filesystem paths.
#[derive(Clone, Debug)]
pub struct Config {
    /// Level to log at.
    pub log_level: LogLevel,
    /// Incoming file storage.
    pub inputs_dir: String,
    /// Encoding result storage.
    pub outputs_dir: String,
    /// Log file directory.
    pub log_file_root: String,
    /// Encoder executable path.
    pub ffmpeg_executable: String,
    /// Web file root.
    pub web_root: String,
    /// Largest accepted input, in bytes.
    pub max_file_size: u64,
    /// Port to bind to.
    pub port: u16,
    /// Delete a finished task's files after this many minutes.
    pub delete_files_after_minutes: u64,
}

impl Default for Config {
    /// The configuration the service writes when none exists.
    fn default() -> (r: Config)
        ensures
            r.log_level == LogLevel::Info,
            r.inputs_dir@ == "./inputs"@,
            r.outputs_dir@ == "./outputs"@,
            r.log_file_root@ == "./logs"@,
            r.ffmpeg_executable@ == "ffmpeg"@,
            r.web_root@ == "./web"@,
            r.max_file_size == 0x40000000u64,
            r.port == 80,
            r.delete_files_after_minutes == 60,
    {
        Config {
            log_level: LogLevel::Info,
            inputs_dir: String::from_str("./inputs"),
            outputs_dir: String::from_str("./outputs"),
            log_file_root: String::from_str("./logs"),
            ffmpeg_executable: String::from_str("ffmpeg"),
            web_root: String::from_str("./web"),
            max_file_size: 0x40000000,
            port: 80,
            delete_files_after_minutes: 60,
        }
    }
}

/// A directory listing holds the given name.
pub open spec fn listing_has(entries: Seq<Seq<char>>, name: Seq<char>) -> bool {
    exists|i: int| 0 <= i < entries.len() && entries[i] == name
}

impl Config {
    /// Does the web root hold the two pages the service serves?
    ///
    /// `entries` is the listing of the web root, or nothing when the
    /// directory does not exist. True exactly when the listing holds both
    /// `index.html` and `completed.html`.
    pub fn web_dir_found(&self, entries: Option<&Vec<String>>) -> (r: bool)
        ensures
            r == (entries matches Some(es) && listing_has(
                es@.map_values(|s: String| s@),
                "index.html"@,
            ) && listing_has(es@.map_values(|s: String| s@), "completed.html"@)),
    {
        let es = match entries {
            Some(es) => es,
            None => {
                return false;
            },
        };
        let ghost views = es@.map_values(|s: String| s@);
        let n = es.len();
        let mut index: bool = false;
        let mut completed: bool = false;
        let mut i: usize = 0;
        while i < n
            invariant
                0 <= i <= n,
                n == es@.len(),
                views == es@.map_values(|s: String| s@),
                index == (exists|m: int| 0 <= m < i && views[m] == "index.html"@),
                completed == (exists|m: int| 0 <= m < i && views[m] == "completed.html"@),
            decreases n - i,
        {
            let name: &String = &es[i];
            if str_eq(name.as_str(), "index.html") {
                index = true;
            }
            if str_eq(name.as_str(), "completed.html") {
                completed = true;
            }
            proof {
                assert(views[i as int] == name@);
            }
            i = i + 1;
        }
        index && completed
    }
}

/// The state the configuration file was found in when a reload ran.
pub enum ConfigFileState {
    /// No file exists.
    Missing,
    /// The file exists but could not be read, or its existence could not
    /// be settled.
    Unreadable,
    /// The file was read and parsed into a configuration.
    Parsed(Config),
    /// The file was read but did not parse.
    Malformed,
}

/// What a reload does next.
#[derive(Clone, Copy, Debug, PartialEq, Eq, Structural)]
pub enum ReloadAction {
    /// Replace the current configuration with the parsed one.
    UseParsed,
    /// Keep the current configuration and write it to the file.
    WriteCurrent,
    /// Report failure and change nothing.
    Fail,
}

/// Decide what a reload does: a parsed file replaces the configuration; a
/// missing or malformed file has the current configuration written out; a
/// file that cannot be read fails the reload.
pub fn reload_decision(state: &ConfigFileState) -> (r: ReloadAction)
    ensures
        state is Parsed ==> r == ReloadAction::UseParsed,
        state is Missing || state is Malformed ==> r == ReloadAction::WriteCurrent,
        state is Unreadable ==> r == ReloadAction::Fail,
{
    match state {
        ConfigFileState::Parsed(_) => ReloadAction::UseParsed,
        ConfigFileState::Missing => ReloadAction::WriteCurrent,
        ConfigFileState::Malformed => ReloadAction::WriteCurrent,
        ConfigFileState::Unreadable => ReloadAction::Fail,
    }
}

} // verus!
