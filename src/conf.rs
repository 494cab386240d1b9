use vstd::prelude::*;

verus! {

/// What a configuration file holds when it is first created.
pub const DEFAULT_CONF: &'static str = "# Templar Configuration
";

/// The content of a new configuration file.
pub fn default_conf() -> (r: String)
    ensures
        r@ == DEFAULT_CONF@,
{
    DEFAULT_CONF.to_owned()
}

} // verus!
