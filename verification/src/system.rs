//! The system that the program was built for.

use vstd::prelude::*;

verus! {

/// The systems for which the crate `url` is built, as far as they treat the paths of files
/// differently.
pub enum System {
    Windows,
    Redox,
    Wasi,
    Hermit,
    Cygwin,
    /// Every other Unix.
    Unix,
}

/// What is known of the system that the program was built for. There is no other way to a value
/// than to ask.
pub(crate) struct ThisSystem {
    backslash: bool,
}

impl ThisSystem {
    /// Whether `\` separates the parts of a path.
    pub(crate) closed spec fn has_backslash(&self) -> bool {
        self.backslash
    }

    /// Whether `\` separates the parts of a path.
    pub(crate) fn backslash(&self) -> (r: bool)
        ensures
            r == self.has_backslash(),
    {
        self.backslash
    }
}

/// `std::path::is_separator`, asked for `\`. What it answers depends on the system, and is left
/// unsaid.
#[verifier::external_body]
pub(crate) fn this_system() -> (r: ThisSystem) {
    ThisSystem { backslash: std::path::is_separator('\\') }
}

}
