use vstd::prelude::*;

verus! {

/// The server's configuration; it holds no settings yet.
#[derive(PartialEq, Eq, Structural, Clone, Copy, Debug)]
pub struct ServerdConfig {}

impl Default for ServerdConfig {
    fn default() -> (r: ServerdConfig) {
        ServerdConfig {}
    }
}

impl ServerdConfig {
    /// Where the configuration is also read from, after the given path.
    pub fn fallback_path() -> (r: &'static str)
        ensures
            r@ == "/etc/serverd.conf"@,
    {
        "/etc/serverd.conf"
    }
}

} // verus!
