use vstd::prelude::*;
use crate::elements::ElementType;
use crate::modes::ScreenReaderMode;

verus! {

/// What a matched input asks the screen reader to do.
#[derive(Debug, Clone, Copy, PartialEq, Eq, Hash, Structural)]
pub enum ScreenReaderEventType {
    ChangeMode(ScreenReaderMode),
    Next(ElementType),
    Previous(ElementType),
}

} // verus!
