//! Host side of the wCopy-family RFID readers: framing, tag encodings, the
//! decisions of the command line and of the terminal interface.

pub mod text;
pub mod hexes;
pub mod number;
pub mod command;
pub mod frame;
pub mod em4100;
pub mod mifare;
pub mod reader;
pub mod lf;
pub mod hf;
pub mod worker;
pub mod cli;
pub mod ui;
pub mod input;
pub mod app;
pub mod session;
pub mod view;
