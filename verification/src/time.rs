//! The clock, as the catalog uses it: Beijing wall-clock readings.

use vstd::prelude::*;

verus! {

/// Relies on chrono's UTC clock and its fixed-offset conversion: seconds
/// and milliseconds since the epoch, and the local time formatted as
/// `YYYY-MM-DD hh:mm:ss`. A clock reading is not a function of the
/// program's state, so nothing is promised of the values.
#[verifier::external_body]
pub fn get_beijing_time_info() -> (i64, i64, String) {
    let utc_now = chrono::Utc::now();
    match chrono::FixedOffset::east_opt(8 * 3600) {
        Some(beijing_offset) => {
            let beijing_time: chrono::DateTime<chrono::FixedOffset> = utc_now.with_timezone(
                &beijing_offset,
            );
            let seconds = beijing_time.timestamp();
            let millis = beijing_time.timestamp_millis();
            let formatted = beijing_time.format("%Y-%m-%d %H:%M:%S").to_string();
            (seconds, millis, formatted)
        },
        None => (utc_now.timestamp(), utc_now.timestamp(), String::new()),
    }
}

} // verus!
