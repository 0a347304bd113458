//! A small user-lookup library built around a swappable data-access
//! capability: a trait with one lookup operation, a production
//! implementation that derives a display name from the identifier, a
//! consumer that turns a lookup outcome into a status message, and a
//! configurable test double whose mapping can be replaced after
//! construction.

pub mod database;
pub mod decimal;
pub mod stub;
