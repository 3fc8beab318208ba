//! The items that most users of the driver need.

pub use crate::async_builder::AsyncBuilder;
pub use crate::async_display::AsyncDisplay;
pub use crate::async_interface::AsyncWriteOnlyDataCommand;
pub use crate::mode::AsyncGraphicsMode;
pub use crate::properties::{DisplayRotation, DisplaySize};
