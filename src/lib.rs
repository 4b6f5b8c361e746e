//! A small language for find-and-replace refactorings, and the engine that
//! runs it against an editor's text and selection.
//!
//! A script is tokenized ([`lex`]) and parsed ([`parse`]) once into a
//! [`Script`]. Running it against an [`EditorContext`] resolves its patterns
//! over the concatenated text of the context's regions ([`pattern`]),
//! evaluates its statements ([`script`]) and turns each replacement into the
//! deletes, backspaces and insertion that an editor applies at its cursor
//! ([`edit`]). The modules [`cursor`] and [`keyboard`] hold the cursor and key
//! chord logic of the editor front end.

pub mod ast;
pub mod context;
pub mod cursor;
pub mod edit;
pub mod errors;
pub mod keyboard;
pub mod lex;
pub mod parser;
pub mod pattern;
pub mod refactorings;
pub mod script;

pub use ast::{Directive, Expr, Import, Stmt, TopLevel};
pub use context::{overlaps, selected, ContentRegion, EditorContext};
pub use cursor::{Cursor, Direction};
pub use edit::{delete_range, Mutation};
pub use errors::{ErrorKind, EvalError};
pub use keyboard::KeyboardControl;
pub use lex::{lex, Token};
pub use parser::parse;
pub use refactorings::{all, position_of, suggestions_for_context, Refactoring, Suggestion};
pub use script::Script;
