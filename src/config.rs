use vstd::prelude::*;

verus! {

/// Command-line settings.
pub struct Config {
    /// Address of the server to join; without one, a local server is run.
    pub server: Option<String>,
}

/// Whether debug overlays are shown.
#[derive(Clone, Copy, Debug, PartialEq, Eq, Structural)]
pub struct Debug {
    pub enabled: bool,
}

} // verus!
