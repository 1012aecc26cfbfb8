//! A manager for SSH connection profiles with a terminal interface.
//!
//! This library is the part that decides: where the cursor of a text field
//! may stand, what each key does in each mode, what is shown, how a pasted
//! connection command is read, and what is run to connect. It reads no
//! terminal, no clipboard, no file and no environment; a program around it
//! does that and hands over plain values.
//!
//! - [`cursor`]: cursor positions in UTF-8 text.
//! - [`text`]: text as characters and as bytes.
//! - [`config`]: profiles and the list of them.
//! - [`parser`]: reading a connection command.
//! - [`input`]: key presses.
//! - [`form`]: the form that adds or edits a profile.
//! - [`ui`]: the session as a state machine.
//! - [`render`]: what a state shows, as lines of text.
//! - [`connect`]: the program and the arguments that connect to a profile.
//! - [`i18n`]: the messages, in English and in Chinese.
pub mod config;
pub mod connect;
pub mod cursor;
pub mod form;
pub mod i18n;
pub mod input;
pub mod parser;
pub mod render;
pub mod text;
pub mod ui;
