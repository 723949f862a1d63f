//! The user configuration, as far as the library reads it.

use vstd::prelude::*;

verus! {

/// The user configuration.
#[derive(Debug)]
pub struct UserConfig {
    /// Where resuming opens a session inside herdr: `tab`, `split` or `off`.
    pub herdr_resume: Option<String>,
}

impl Default for UserConfig {
    fn default() -> (r: Self)
        ensures
            r.herdr_resume is None,
    {
        UserConfig { herdr_resume: None }
    }
}

} // verus!
