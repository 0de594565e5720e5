//! Runtime key bindings: key transitions are turned into the callbacks of
//! named actions, and an action is rebound by capturing the next key, which
//! is bound by how long it was held.
//!
//! The library holds keys and modifier sets as plain numbers and never runs
//! a callback itself: the host converts its own key codes, asks its
//! keyboard, and runs what the mapper hands back.
//!
//! - [`edge`]: the edge kinds and the classifier of held durations.
//! - [`chord`]: chords, their codes and their text.
//! - [`model`]: the mapper's state as a mathematical value, and every
//!   operation as a function on it.
//! - [`mapper`]: the mapper itself, each operation proved against the model.
//! - [`laws`]: what holds of the operations taken together.
//! - [`overlay`]: the choice of shader dialect for the debug overlay.

pub mod chord;
pub mod edge;
pub mod laws;
pub mod mapper;
pub mod model;
pub mod overlay;

pub use chord::KeyEvent;
pub use edge::KeyEdge;
pub use mapper::Binding;
pub use mapper::KeyMapper;
pub use mapper::NamedFunction;
