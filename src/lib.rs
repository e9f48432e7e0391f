//! A small runtime for interactive terminal applications, with the paging
//! and scrolling arithmetic that list-style components are built on.

pub mod components;
pub mod error;
pub mod event;
pub mod font;
pub mod message;
pub mod model;
pub mod pager;
pub mod runtime;
pub mod text;
pub mod viewport;

pub use error::Error;
pub use message::{batch, exit, quit, BatchMessage, Command, ExitMessage, Message};
pub use model::Model;
pub use pager::Pager;
pub use runtime::{next_frame, Reaction, Redraw, Runtime};
pub use text::normalize_endings;
pub use viewport::{Bound, BoundMap, Viewport};
