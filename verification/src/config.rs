//! The configuration: which text it is read from.

use vstd::prelude::*;

verus! {

/// The configuration of a router without servers.
pub open spec fn default_text() -> Seq<char> {
    "{\"servers\":{}}"@
}

/// The configuration to start with: what is stored, where it could be read, and one without
/// servers otherwise.
pub fn config_text(stored: Option<String>) -> (chars: String)
    ensures
        chars@ == match stored {
            Some(found) => found@,
            None => default_text(),
        },
        stored is Some ==> chars@ == stored->0@,
        stored is None ==> chars@ == "{\"servers\":{}}"@,
{
    match stored {
        Some(found) => found,
        None => "{\"servers\":{}}".to_string(),
    }
}

} // verus!
