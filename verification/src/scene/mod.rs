//! Scene scripts: their lexical structure, their commands and their execution.
//!
//! A script is read line by line. A line's first word says what it is: `CAM`
//! places the camera, `MAT` defines a material, `OBJ sphere` and `OBJ rect`
//! add a shape made of a material defined before, `~ n` makes the next
//! statement run `n` times, and `//` starts a comment. Numbers are kept as
//! they are written; `lo_hi` stands for a number to be drawn between two
//! bounds each time its statement runs.

pub mod command;
pub mod layout;
pub mod lexer;
pub mod number;
pub mod script;

pub use command::{Bounds, Command, CommandOf, Fault, Triple};
pub use lexer::Token;
pub use number::Quantity;
pub use script::{parse, SceneError};
