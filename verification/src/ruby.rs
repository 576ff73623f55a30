//! The companion scripting-transform shell.
//!
//! The transform itself only carries optional source text; evaluating that
//! text inside an embedded interpreter is runtime embedding that lives
//! outside this library.  Construction never fails.

use vstd::prelude::*;

verus! {

/// Configuration of the scripting transform.
pub struct RubyConfig {
    /// The source code the transform would evaluate at startup.
    pub source: Option<String>,
}

/// The constructed transform shell.
pub struct Ruby {}

impl Ruby {
    /// Construct the transform shell for this configuration.
    pub fn new(_config: &RubyConfig) -> (r: Result<Ruby, ()>)
        ensures
            r is Ok,
    {
        Ok(Ruby {  })
    }
}

impl RubyConfig {
    /// Build the transform this configuration describes.
    pub fn build(&self) -> (r: Result<Ruby, ()>)
        ensures
            r is Ok,
    {
        Ruby::new(self)
    }

    /// The name this component registers under.
    pub fn get_component_name(&self) -> (r: &'static str)
        ensures
            r@ == "ruby"@,
    {
        "ruby"
    }
}

} // verus!
