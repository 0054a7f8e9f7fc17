//! How a JSON document is written.
use vstd::prelude::*;

verus! {

/// JSON presentation options are intentionally limited to whitespace. The schema and values
/// always come directly from the frozen snapshot model.
#[derive(Clone, Copy, Debug, PartialEq, Eq, Structural)]
pub struct JsonOptions {
    pub pretty: bool,
}

impl Default for JsonOptions {
    fn default() -> (options: Self)
        ensures
            !options.pretty,
    {
        JsonOptions { pretty: false }
    }
}

} // verus!
