//! The logic of a chat bot that runs Python snippets, draws images in
//! braille and keeps a few small commands: what each command says and
//! does, apart from the talking to the chat service, the file system and
//! the interpreter process.

pub mod braille;
pub mod chat;
pub mod py;
pub mod pyremote;
pub mod supervisor;
pub mod text;
pub mod unicode;
