//! Exports of captured sessions: the bundle that is written out and the
//! name of the file it goes to.
use vstd::prelude::*;

use crate::clock::{compact_stamp, compact_text, Instant};
use crate::model::{CapturedSession, ExportBundle, SessionModel};
use crate::text::concat3;

verus! {

/// The format tag of an export bundle.
pub open spec fn export_format() -> Seq<char> {
    "rustnetlens-export-v1"@
}

/// The bundle of `sessions` exported at `exported_at`.
pub fn export_bundle(sessions: Vec<CapturedSession>, exported_at: Instant) -> (r: ExportBundle)
    ensures
        r.format@ == export_format(),
        r.exported_at == exported_at,
        r.sessions.deep_view() == sessions.deep_view(),
{
    ExportBundle { format: "rustnetlens-export-v1".to_owned(), exported_at, sessions }
}

/// The name of an export file written at `now` with the given suffix:
/// `rustnetlens-export-` and the UTC time as `YYYYmmdd-HHMMSS`, then `.`
/// and the suffix.
pub open spec fn export_file_text(stamp: Seq<char>, suffix: Seq<char>) -> Seq<char> {
    "rustnetlens-export-"@ + stamp + "."@ + suffix
}

/// The name of an export file written at `now`, or `None` when `now` is
/// out of the range of dates.
pub fn export_file_name(now: Instant, suffix: &str) -> (r: Option<String>)
    ensures
        match compact_text(now as int) {
            Some(stamp) => (r matches Some(n) && n@ == export_file_text(stamp, suffix@)),
            None => r is None,
        },
{
    match compact_stamp(now) {
        Some(stamp) => {
            let mut name = concat3("rustnetlens-export-", stamp.as_str(), ".");
            name.append(suffix);
            Some(name)
        },
        None => None,
    }
}

/// The suffix of an export in the given format: `har` for the HAR-like
/// format, `json` for any other.
pub fn export_suffix(format: &str) -> (r: &'static str)
    ensures
        r@ == (if format@ == "har"@ { "har"@ } else { "json"@ }),
{
    if crate::text::same_text(format, "har") {
        proof {
            reveal_strlit("har");
        }
        "har"
    } else {
        "json"
    }
}

} // verus!
