//! Reads one C `enum` declaration and renders a C function that maps each
//! enumerator to its own name.
//!
//! [`grammar`] is the mathematical description of the accepted text: what a
//! run of blanks is, where an identifier ends, which enumerators a
//! brace-delimited list holds, and what a whole text parses to. [`source`] is
//! the text buffer that the scanner walks over, [`parser`] the scanner and
//! [`render`] the code generator, each proved against the description.
//! [`canonical`] and [`prefix`] hold what is proved of the grammar itself:
//! that a declaration written in the usual form is read back as written, and
//! that a leading `typedef` changes nothing. [`options`] and [`window`] read
//! the command line and cut the chosen lines out of a file.

pub mod canonical;
pub mod grammar;
pub mod options;
pub mod parser;
pub mod prefix;
pub mod render;
pub mod source;
pub mod window;
