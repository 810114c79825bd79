//! Supervision of a screen recording that an external encoder makes: the
//! argument lists of the encoder runs, the parser of the progress that the
//! encoder reports, and the lifecycle of a recording from capture to the
//! compressed file.
pub mod console;
pub mod ffmpeg;
pub mod runner;
pub mod service;
pub mod text;
