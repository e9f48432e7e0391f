//! Reusable pieces of interface state.

pub mod input;
pub mod list;
pub mod text_input;

pub use input::Input;
pub use list::List;
pub use text_input::TextInput;
