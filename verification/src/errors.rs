//! Errors the record store reports.

use vstd::prelude::*;
use vstd::string::StringExecFns;

verus! {

/// A configuration file that could not be read or parsed; carries the
/// offending file's name.  The listing skips such a file and reports it
/// through this type instead of failing as a whole.
#[derive(Debug, Clone, PartialEq)]
pub struct OverlayConfigParseError(pub String);

impl OverlayConfigParseError {
    /// The diagnostic line the surrounding process logs for a skipped file.
    pub fn message(&self) -> (r: String)
        ensures
            r@ == "Could not parse the configuration file "@ + self.0@,
    {
        let prefix: String = "Could not parse the configuration file ".to_owned();
        prefix.concat(self.0.as_str())
    }
}

} // verus!
