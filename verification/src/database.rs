//! Database connection settings: where the SQLite file lives, whether a forced
//! reset may run, and the journal mode a database reports.
use crate::text::{ascii_uppercase, is_ascii_text, to_uppercase, unicode_uppercase};
use vstd::prelude::*;
use vstd::string::*;

verus! {

/// The environment variable which asks for the database to be reset on start.
pub const FORCE_RESET_KEY: &'static str = "FORCE_DB_RESET";

/// The row of a `COUNT(*)` query.
#[derive(Debug)]
pub struct CountQueryReturn {
    pub count: i64,
}

impl Default for CountQueryReturn {
    fn default() -> (r: Self)
        ensures
            r.count == 0,
    {
        CountQueryReturn { count: 0 }
    }
}

/// The SQLite journal modes Stump knows about.
#[derive(Debug, Clone, Copy, PartialEq, Eq, Structural)]
pub enum JournalMode {
    WAL,
    DELETE,
}

impl Default for JournalMode {
    fn default() -> (r: Self)
        ensures
            r == JournalMode::WAL,
    {
        JournalMode::WAL
    }
}

/// The name SQLite uses for a journal mode.
pub open spec fn journal_mode_name(mode: JournalMode) -> Seq<char> {
    match mode {
        JournalMode::WAL => "WAL"@,
        JournalMode::DELETE => "DELETE"@,
    }
}

/// The journal mode a name denotes, compared case-insensitively (by the
/// Unicode uppercase of the name).
pub open spec fn journal_mode_from_name(s: Seq<char>) -> Option<JournalMode> {
    let upper = unicode_uppercase(s);
    if upper == "WAL"@ {
        Some(JournalMode::WAL)
    } else if upper == "DELETE"@ {
        Some(JournalMode::DELETE)
    } else {
        None
    }
}

/// The message of a journal mode name that names no known mode.
pub open spec fn invalid_journal_mode_message(s: Seq<char>) -> Seq<char> {
    "Invalid or unsupported journal mode: "@ + s
}

impl JournalMode {
    /// The name SQLite uses for this journal mode.
    pub fn as_str(&self) -> (r: &'static str)
        ensures
            r@ == journal_mode_name(*self),
    {
        match self {
            JournalMode::WAL => "WAL",
            JournalMode::DELETE => "DELETE",
        }
    }

    /// Parse a journal mode name, ignoring case.
    pub fn parse(s: &str) -> (r: Result<JournalMode, String>)
        ensures
            match journal_mode_from_name(s@) {
                Some(mode) => r == Ok::<JournalMode, String>(mode),
                None => r is Err && r->Err_0@ == invalid_journal_mode_message(s@),
            },
            is_ascii_text(s@) && ascii_uppercase(s@) == "WAL"@ ==> r == Ok::<JournalMode, String>(JournalMode::WAL),
            is_ascii_text(s@) && ascii_uppercase(s@) == "DELETE"@ ==> r == Ok::<JournalMode, String>(
                JournalMode::DELETE,
            ),
            is_ascii_text(s@) && ascii_uppercase(s@) != "WAL"@ && ascii_uppercase(s@) != "DELETE"@ ==> r is Err,
    {
        proof {
            reveal_strlit("WAL");
            reveal_strlit("DELETE");
        }
        let upper = to_uppercase(s);
        assert("WAL"@ != "DELETE"@) by { assert("WAL"@.len() != "DELETE"@.len()); }
        if upper == String::from_str("WAL") {
            Ok(JournalMode::WAL)
        } else if upper == String::from_str("DELETE") {
            Ok(JournalMode::DELETE)
        } else {
            let mut message = String::from_str("Invalid or unsupported journal mode: ");
            message.append(s);
            Err(message)
        }
    }
}

impl std::str::FromStr for JournalMode {
    type Err = String;

    fn from_str(s: &str) -> (r: Result<Self, Self::Err>)
        ensures
            match journal_mode_from_name(s@) {
                Some(mode) => r == Ok::<JournalMode, String>(mode),
                None => r is Err && r->Err_0@ == invalid_journal_mode_message(s@),
            },
            is_ascii_text(s@) && ascii_uppercase(s@) == "WAL"@ ==> r == Ok::<JournalMode, String>(JournalMode::WAL),
            is_ascii_text(s@) && ascii_uppercase(s@) == "DELETE"@ ==> r == Ok::<JournalMode, String>(
                JournalMode::DELETE,
            ),
            is_ascii_text(s@) && ascii_uppercase(s@) != "WAL"@ && ascii_uppercase(s@) != "DELETE"@ ==> r is Err,
    {
        JournalMode::parse(s)
    }
}

impl AsRef<str> for JournalMode {
    fn as_ref(&self) -> (r: &str)
        ensures
            r@ == journal_mode_name(*self),
    {
        self.as_str()
    }
}

/// The journal mode a database reported for itself.
#[derive(Debug)]
pub struct JournalModeQueryResult {
    pub journal_mode: JournalMode,
}

/// The journal mode read from the `journal_mode` column: an unknown name, or
/// a missing column, is taken as the default (WAL).
pub open spec fn journal_mode_of_column(value: Option<Seq<char>>) -> JournalMode {
    match value {
        Some(name) => match journal_mode_from_name(name) {
            Some(mode) => mode,
            None => JournalMode::WAL,
        },
        None => JournalMode::WAL,
    }
}

impl JournalModeQueryResult {
    /// Build the result from the `journal_mode` column of the query's row, if
    /// the row had one.
    pub fn from_column(value: Option<String>) -> (r: JournalModeQueryResult)
        ensures
            r.journal_mode == journal_mode_of_column(
                match value {
                    Some(v) => Some(v@),
                    None => None,
                },
            ),
    {
        let journal_mode = match value {
            Some(v) => match JournalMode::parse(v.as_str()) {
                Ok(mode) => mode,
                Err(_) => JournalMode::default(),
            },
            None => JournalMode::default(),
        };
        JournalModeQueryResult { journal_mode }
    }
}

/// The SQLite URL a server connects to: the configured database directory
/// when there is one, else the crate directory in debug builds, else the
/// configuration directory.
pub open spec fn database_url_spec(
    db_path: Option<Seq<char>>,
    debug_build: bool,
    manifest_dir: Seq<char>,
    config_dir: Seq<char>,
) -> Seq<char> {
    match db_path {
        Some(path) => "sqlite://"@ + path + "/stump.db?mode=rwc"@,
        None => if debug_build {
            "sqlite://"@ + manifest_dir + "/dev.db?mode=rwc"@
        } else {
            "sqlite://"@ + config_dir + "/stump.db?mode=rwc"@
        },
    }
}

/// The SQLite URL the server connects to.
pub fn database_url(
    db_path: Option<&str>,
    debug_build: bool,
    manifest_dir: &str,
    config_dir: &str,
) -> (r: String)
    ensures
        r@ == database_url_spec(
            match db_path {
                Some(p) => Some(p@),
                None => None,
            },
            debug_build,
            manifest_dir@,
            config_dir@,
        ),
{
    let mut url = String::from_str("sqlite://");
    match db_path {
        Some(path) => {
            url.append(path);
            url.append("/stump.db?mode=rwc");
        },
        None => {
            if debug_build {
                url.append(manifest_dir);
                url.append("/dev.db?mode=rwc");
            } else {
                url.append(config_dir);
                url.append("/stump.db?mode=rwc");
            }
        },
    }
    url
}

/// What a start-up does about a requested database reset.
#[derive(Debug, Clone, Copy, PartialEq, Eq, Structural)]
pub enum ResetDecision {
    /// No reset was asked for: migrate as usual.
    Keep,
    /// Roll every migration back before migrating again.
    Reset,
    /// A reset was asked for outside a debug build: refuse to start.
    NotAllowed,
}

/// The reset decision: a reset is asked for exactly when the variable reads
/// `true`, and is only carried out in debug builds.
pub open spec fn reset_decision_spec(value: Option<Seq<char>>, debug_build: bool) -> ResetDecision {
    let forced = value == Some("true"@);
    if forced && debug_build {
        ResetDecision::Reset
    } else if forced {
        ResetDecision::NotAllowed
    } else {
        ResetDecision::Keep
    }
}

/// A forced reset never runs outside a debug build, and one is refused there
/// rather than ignored.
pub proof fn law_reset_only_in_debug_builds(value: Option<Seq<char>>)
    ensures
        reset_decision_spec(value, false) != ResetDecision::Reset,
        value == Some("true"@) ==> reset_decision_spec(value, false) == ResetDecision::NotAllowed,
{
}

/// Decide about a database reset from the value of `FORCE_DB_RESET` (`None`
/// when it could not be read) and the kind of build.
pub fn reset_decision(value: Option<&str>, debug_build: bool) -> (r: ResetDecision)
    ensures
        r == reset_decision_spec(
            match value {
                Some(v) => Some(v@),
                None => None,
            },
            debug_build,
        ),
{
    let forced = match value {
        Some(v) => String::from_str(v) == String::from_str("true"),
        None => false,
    };
    if forced && debug_build {
        ResetDecision::Reset
    } else if forced {
        ResetDecision::NotAllowed
    } else {
        ResetDecision::Keep
    }
}

} // verus!
