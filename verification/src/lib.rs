//! A two-player game of noughts and crosses on a three-by-three grid.
//!
//! The game is a small state machine: a [`Model`] owns a [`Board`] and the
//! player who moves next, and changes only through [`Model::update`].
//! Every executable function carries a contract over the mathematical
//! view of its data, and Verus proves that the code keeps it. The module
//! [`laws`] holds theorems about whole games.
//!
//! Beside the game the crate offers [`table::Table`], a multimap, and
//! [`view()`], the list of the bindings that a display of the game has.

pub mod binding;
pub mod board;
pub mod grid;
pub mod laws;
pub mod line;
pub mod model;
pub mod player;
pub mod pos;
pub mod rules;
pub mod table;
pub mod text;
pub mod view;

pub use binding::ViewBinding;
pub use board::Board;
pub use line::Line;
pub use model::{Model, ModelView, Msg};
pub use player::Player;
pub use pos::Pos;
pub use rules::GameResult;
pub use view::view;
