//! How a command is shown to a reader.
use vstd::prelude::*;

verus! {

/// The settings for showing a command.
#[derive(Debug, Clone, Copy, PartialEq, Eq, Structural)]
pub struct Style {
    /// Show the command line only, as one would type it.
    pub cmd_only: bool,
    /// Show the environment variables rather than their number.
    pub print_env: bool,
    /// Show the path of the program rather than the name it is called by.
    pub show_path: bool,
}

impl Style {
    /// The style that shows everything that is known of a command.
    pub fn debug() -> (r: Style)
        ensures
            r == (Style { cmd_only: false, print_env: true, show_path: true }),
    {
        Style { cmd_only: false, print_env: true, show_path: true }
    }

    /// The style that shows the command line only, with the name of the
    /// program in place of its path.
    pub fn short() -> (r: Style)
        ensures
            r == (Style { cmd_only: true, print_env: false, show_path: false }),
    {
        Style { cmd_only: true, print_env: false, show_path: false }
    }

    /// Says whether the environment variables are shown.
    pub fn env(self, enable: bool) -> (r: Style)
        ensures
            r == (Style { print_env: enable, ..self }),
    {
        Style { print_env: enable, ..self }
    }

    /// Says whether the path of the program is shown.
    pub fn path(self, enable: bool) -> (r: Style)
        ensures
            r == (Style { show_path: enable, ..self }),
    {
        Style { show_path: enable, ..self }
    }
}

} // verus!
