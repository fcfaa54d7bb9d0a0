//! Which origins may call the service from a browser.

use vstd::prelude::*;
use crate::text::{same_text, starts_with};

verus! {

/// The origin of the service in production.
pub const PRODUCTION_ORIGIN: &'static str = "https://tombotower.eu";

/// Whether requests from `origin` are accepted: browser extensions and the
/// production origin always, a local origin outside production only.
pub open spec fn accepts_origin(origin: Seq<char>, production: bool) -> bool {
    ||| "moz-extension://"@.is_prefix_of(origin)
    ||| "chrome-extension://"@.is_prefix_of(origin)
    ||| origin == PRODUCTION_ORIGIN@
    ||| (!production && ("http://localhost"@.is_prefix_of(origin)
        || "http://127.0.0.1"@.is_prefix_of(origin)))
}

/// Whether requests from `origin` are accepted.
pub fn origin_allowed(origin: &str, production: bool) -> (allowed: bool)
    ensures
        allowed == accepts_origin(origin@, production),
{
    if starts_with(origin, "moz-extension://") || starts_with(origin, "chrome-extension://") {
        return true;
    }
    if same_text(origin, PRODUCTION_ORIGIN) {
        return true;
    }
    !production && (starts_with(origin, "http://localhost") || starts_with(
        origin,
        "http://127.0.0.1",
    ))
}

} // verus!
