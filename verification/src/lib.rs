//! VinilCut: the rules behind a small web tool that turns a cover image and an
//! audio file into a video of a spinning record, and behind the command that
//! sends such a video to Telegram as a round note.

pub mod assets;
pub mod caption;
pub mod clock;
pub mod color;
pub mod command;
pub mod double;
pub mod form;
pub mod graph;
pub mod jobs;
pub mod note;
pub mod number;
pub mod promise;
pub mod quoting;
pub mod render;
pub mod reply;
pub mod text;
