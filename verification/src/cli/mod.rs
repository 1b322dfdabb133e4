//! What an interactive front end needs to turn a line of text into a command:
//! splitting the line into words, reading bytes written in hexadecimal, and
//! telling the commands apart.

pub mod command;
pub mod parser;
pub mod type_parsing;
