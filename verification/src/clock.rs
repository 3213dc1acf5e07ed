//! The wall clock.

use vstd::prelude::*;

verus! {

/// The local time as `YYYY-MM-DD HH:MM:SS`.
///
/// Trusted: calls `chrono::Local::now` and formats what it returns with
/// `%Y-%m-%d %H:%M:%S`. Nothing is claimed of the text: it depends on the
/// clock and the time zone of the machine.
#[verifier::external_body]
pub(crate) fn local_timestamp() -> String {
    chrono::Local::now().format("%Y-%m-%d %H:%M:%S").to_string()
}

} // verus!
