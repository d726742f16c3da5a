//! Encoding and decoding of the terminal graphics protocol.
//!
//! A [`Command`] describes one operation on images (transmit, place, delete,
//! animate). It renders itself into the control data of an escape sequence,
//! and frames a payload either as one sequence or as a run of chunks. In the
//! other direction [`Response::parse`] reads the terminal's acknowledgement.
//!
//! What goes to the terminal is stated over bytes: a frame is a `Seq<u8>`,
//! and a `String` that the library hands out is the text of such a sequence.
//! What comes from the terminal is bytes as well; its message is read as the
//! text that they encode.

use vstd::prelude::*;

pub mod command;
pub mod decimal;
pub mod encoding;
pub mod error;
pub mod frame;
pub mod response;
pub mod scan;
pub mod terminal;
pub mod text;
pub mod types;

pub use command::{Command, CommandBuilder};
pub use error::Error;
pub use frame::ChunkedSerializer;
pub use response::{ErrorCode, Response};
pub use terminal::WindowSize;
pub use types::{
    Action, AnimationControl, CompositionMode, Compression, CursorPolicy, DeleteTarget,
    FrameComposition, ImageFormat, TransmissionMedium, UnicodePlaceholder,
};

verus! {

/// The escape character.
pub const ESC: u8 = 0x1b;

/// The two bytes that open a frame: the escape character and an underscore.
pub const APC_START: [u8; 2] = [0x1b, 0x5f];

/// The two bytes that close a frame: the escape character and a backslash.
pub const APC_END: [u8; 2] = [0x1b, 0x5c];

/// The letter that marks a frame as one of the graphics protocol.
pub const GRAPHICS_PREFIX: &'static str = "G";

/// The largest number of base64 characters that one chunk carries.
pub const MAX_CHUNK_SIZE: usize = 4096;

} // verus!
