//! Where the sample database is found when the caller names no path.

use vstd::prelude::*;
use vstd::string::StringExecFns;
use crate::sample::text;

verus! {

broadcast use vstd::string::to_string_from_display_ensures_for_str;

/// What is left of a string once the whitespace at both of its ends is removed.
pub uninterp spec fn trimmed(s: Seq<char>) -> Seq<char>;

/// Removes the whitespace at both ends of a string with `str::trim`. The
/// result is known only by its name, `trimmed`.
#[verifier::external_body]
fn trim(s: &str) -> (t: &str)
    ensures
        t@ == trimmed(s@),
{
    s.trim()
}

/// The database below a home directory, or below the shared one where no
/// home directory is known.
pub open spec fn default_db_path_of(home: Option<Seq<char>>) -> Seq<char> {
    let base = match home {
        Some(h) => h,
        None => "/Users/Shared"@,
    };
    base + "/.openclaw/workspace/projects/openclaw-usage-monitor/collector/usage.db"@
}

/// The configured path where it may be used, else the default below `home`.
pub open spec fn chosen_db_path_of(
    configured: Option<Seq<char>>,
    usable: bool,
    home: Option<Seq<char>>,
) -> Seq<char> {
    match configured {
        Some(p) => if usable {
            p
        } else {
            default_db_path_of(home)
        },
        None => default_db_path_of(home),
    }
}

/// The configured path where it holds more than whitespace, else the default
/// below `home`.
pub open spec fn db_path_of(configured: Option<Seq<char>>, home: Option<Seq<char>>) -> Seq<char> {
    match configured {
        Some(p) => chosen_db_path_of(configured, trimmed(p).len() > 0, home),
        None => default_db_path_of(home),
    }
}

/// Picks the configured path if there is one and `usable` says that it may be
/// used, and the default below `home` otherwise.
pub fn choose_db_path(configured: Option<String>, usable: bool, home: Option<String>) -> (path: String)
    ensures
        path@ == chosen_db_path_of(text(configured), usable, text(home)),
{
    match configured {
        Some(p) => {
            if usable {
                return p;
            }
        },
        None => {},
    }
    let base: String = match home {
        Some(h) => h,
        None => "/Users/Shared".to_string(),
    };
    base.concat("/.openclaw/workspace/projects/openclaw-usage-monitor/collector/usage.db")
}

/// The path of the sample database, from the configured value and the home
/// directory as the environment gave them.
pub fn db_path_default(configured: Option<String>, home: Option<String>) -> (path: String)
    ensures
        path@ == db_path_of(text(configured), text(home)),
{
    let usable: bool = match &configured {
        Some(p) => !trim(p.as_str()).is_empty(),
        None => false,
    };
    choose_db_path(configured, usable, home)
}

} // verus!
