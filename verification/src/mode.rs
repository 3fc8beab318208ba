//! Drawing surfaces on top of the panel controller.

pub mod async_graphics;

pub use self::async_graphics::AsyncGraphicsMode;
