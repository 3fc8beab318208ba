//! Driver for SSD1351 colour OLED panels.
//!
//! The driver turns drawing operations into the controller's command protocol and hands the
//! resulting transfers to a transport. Every operation states, as a contract over the
//! transport's log of completed transfers, exactly which bytes reach the bus and in which order.

pub mod async_builder;
pub mod async_command;
pub mod async_display;
pub mod async_interface;
pub mod async_spi_interface;
pub mod command;
pub mod mode;
pub mod prelude;
pub mod properties;
pub mod recording;
