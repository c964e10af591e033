use vstd::prelude::*;
use crate::errors::ModeFromStrError;
use crate::text::str_eq;

verus! {

/// An interaction mode of the screen reader.
#[derive(Debug, Clone, Copy, PartialEq, Eq, Hash, Structural)]
pub enum ScreenReaderMode {
    BrowseMode,
    FocusMode,
    ObjectNavigationMode,
    /// Entered through the `Odilia` modifier key.
    CommandMode,
}

/// The mode whose name is exactly `name`, letter case included.
pub open spec fn mode_named(name: Seq<char>) -> Option<ScreenReaderMode> {
    if name == "BrowseMode"@ {
        Some(ScreenReaderMode::BrowseMode)
    } else if name == "FocusMode"@ {
        Some(ScreenReaderMode::FocusMode)
    } else if name == "CommandMode"@ {
        Some(ScreenReaderMode::CommandMode)
    } else if name == "ObjectNavigationMode"@ {
        Some(ScreenReaderMode::ObjectNavigationMode)
    } else {
        None
    }
}

impl ScreenReaderMode {
    /// The mode called `name`; any other name is `ModeNameNotFound`.
    pub fn new(name: String) -> (r: Result<ScreenReaderMode, ModeFromStrError>)
        ensures
            r == (match mode_named(name@) {
                Some(m) => Ok(m),
                None => Err(ModeFromStrError::ModeNameNotFound),
            }),
    {
        let s = name.as_str();
        if str_eq(s, "BrowseMode") {
            Ok(ScreenReaderMode::BrowseMode)
        } else if str_eq(s, "FocusMode") {
            Ok(ScreenReaderMode::FocusMode)
        } else if str_eq(s, "CommandMode") {
            Ok(ScreenReaderMode::CommandMode)
        } else if str_eq(s, "ObjectNavigationMode") {
            Ok(ScreenReaderMode::ObjectNavigationMode)
        } else {
            Err(ModeFromStrError::ModeNameNotFound)
        }
    }
}

impl std::str::FromStr for ScreenReaderMode {
    type Err = ModeFromStrError;

    fn from_str(s: &str) -> (r: Result<ScreenReaderMode, ModeFromStrError>)
        ensures
            r == (match mode_named(s@) {
                Some(m) => Ok(m),
                None => Err(ModeFromStrError::ModeNameNotFound),
            }),
    {
        ScreenReaderMode::new(s.to_owned())
    }
}

} // verus!
