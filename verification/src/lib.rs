//! A personal task board kept in memory, read from a constrained
//! markdown-like text format.
//!
//! The board ([`Kanban`]) holds an ordered list of column names and a
//! list of cards. A [`Card`] names the column that owns it, carries a
//! completion [`Status`] and a title, and may carry a date and a time
//! annotation. Cards are built through [`CardBuilder`], which enforces
//! the required fields; whole boards are also read from text with
//! [`Kanban::parse`], whose grammar [`KanbanParser`] recognizes.
//!
//! Every operation carries a contract: what it returns, how it changes
//! the board, and exactly when it fails with which [`KanbanError`].

pub mod card;
pub mod errors;
pub mod grammar;
pub mod kanban;
pub mod status;

pub use card::Card;
pub use card::CardBuilder;
pub use errors::Expected;
pub use errors::Field;
pub use errors::KanbanError;
pub use errors::Pos;
pub use grammar::KanbanParser;
pub use kanban::Kanban;
pub use status::Status;
