//! Where the database is kept and how it is reached.

use vstd::prelude::*;
use crate::text::same_text;

verus! {

/// How many connections to the store may be open at once.
pub const MAX_CONNECTIONS: u32 = 5;

/// Whether the environment asks for production mode: the variable `ENV`
/// holds `PROD`. An unset variable counts as empty.
pub fn is_production(env: &str) -> (production: bool)
    ensures
        production == (env@ == "PROD"@),
{
    same_text(env, "PROD")
}

/// Where the database file lies: under `/var/lib/data/` in production, in
/// the working directory otherwise.
pub open spec fn database_location(production: bool) -> Seq<char> {
    "sqlite://"@ + (if production {
        "/var/lib/data/"@
    } else {
        Seq::empty()
    }) + "db.sqlite?mode=rwc"@
}

/// The URL under which the database is opened.
pub fn database_url(production: bool) -> (url: String)
    ensures
        url@ == database_location(production),
{
    let mut url = "sqlite://".to_owned();
    if production {
        url.append("/var/lib/data/");
    }
    proof {
        assert(url@ + Seq::<char>::empty() =~= url@);
    }
    url.append("db.sqlite?mode=rwc");
    url
}

} // verus!
