pub mod elements;
pub mod errors;
pub mod input;
pub mod events;
pub mod modes;
pub mod modifiers;
pub mod text;

pub use elements::ElementType;
pub use errors::{KeyFromStrError, ModeFromStrError};
pub use events::ScreenReaderEventType;
pub use input::KeyBinding;
pub use modes::ScreenReaderMode;
pub use modifiers::Modifiers;
