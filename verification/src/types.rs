//! The closed sets of protocol values and their wire tokens.

use vstd::prelude::*;

verus! {

/// What a command asks the terminal to do.
#[derive(Debug, Clone, Copy, PartialEq, Eq, Hash, Structural)]
pub enum Action {
    /// Ask whether the protocol and a medium are supported.
    Query,
    /// Transmit image data without displaying it.
    Transmit,
    /// Transmit image data and display it.
    TransmitAndDisplay,
    /// Display an image that was transmitted before.
    Place,
    /// Delete images or placements.
    Delete,
    /// Transmit the data of an animation frame.
    Frame,
    /// Control a running animation.
    AnimationControl,
    /// Compose animation frames.
    ComposeFrame,
}

impl Action {
    /// The letter that stands for this action on the wire.
    pub open spec fn wire(self) -> u8 {
        match self {
            Action::Query => 'q' as u8,
            Action::Transmit => 't' as u8,
            Action::TransmitAndDisplay => 'T' as u8,
            Action::Place => 'p' as u8,
            Action::Delete => 'd' as u8,
            Action::Frame => 'f' as u8,
            Action::AnimationControl => 'a' as u8,
            Action::ComposeFrame => 'c' as u8,
        }
    }

    /// The letter that stands for this action on the wire.
    pub fn code(&self) -> (c: u8)
        ensures
            c == self.wire(),
    {
        match self {
            Action::Query => 'q' as u8,
            Action::Transmit => 't' as u8,
            Action::TransmitAndDisplay => 'T' as u8,
            Action::Place => 'p' as u8,
            Action::Delete => 'd' as u8,
            Action::Frame => 'f' as u8,
            Action::AnimationControl => 'a' as u8,
            Action::ComposeFrame => 'c' as u8,
        }
    }
}

impl Default for Action {
    fn default() -> (a: Action)
        ensures
            a == Action::TransmitAndDisplay,
    {
        Action::TransmitAndDisplay
    }
}

/// How the pixels of a payload are laid out.
#[derive(Debug, Clone, Copy, PartialEq, Eq, Hash, Structural)]
pub enum ImageFormat {
    /// Three bytes per pixel: red, green, blue.
    Rgb,
    /// Four bytes per pixel: red, green, blue, alpha.
    Rgba,
    /// A PNG file.
    Png,
}

impl ImageFormat {
    /// The number that stands for this format on the wire.
    pub open spec fn wire(self) -> u8 {
        match self {
            ImageFormat::Rgb => 24,
            ImageFormat::Rgba => 32,
            ImageFormat::Png => 100,
        }
    }

    /// The number that stands for this format on the wire.
    pub fn code(&self) -> (c: u8)
        ensures
            c == self.wire(),
    {
        match self {
            ImageFormat::Rgb => 24,
            ImageFormat::Rgba => 32,
            ImageFormat::Png => 100,
        }
    }
}

impl Default for ImageFormat {
    fn default() -> (f: ImageFormat)
        ensures
            f == ImageFormat::Rgba,
    {
        ImageFormat::Rgba
    }
}

/// Where the terminal finds the image data.
#[derive(Debug, Clone, Copy, PartialEq, Eq, Hash, Structural)]
pub enum TransmissionMedium {
    /// In the escape sequence itself.
    Direct,
    /// In a regular file.
    File,
    /// In a temporary file, which the terminal deletes after reading.
    TempFile,
    /// In a shared memory object.
    SharedMemory,
}

impl TransmissionMedium {
    /// The letter that stands for this medium on the wire.
    pub open spec fn wire(self) -> u8 {
        match self {
            TransmissionMedium::Direct => 'd' as u8,
            TransmissionMedium::File => 'f' as u8,
            TransmissionMedium::TempFile => 't' as u8,
            TransmissionMedium::SharedMemory => 's' as u8,
        }
    }

    /// The letter that stands for this medium on the wire.
    pub fn code(&self) -> (c: u8)
        ensures
            c == self.wire(),
    {
        match self {
            TransmissionMedium::Direct => 'd' as u8,
            TransmissionMedium::File => 'f' as u8,
            TransmissionMedium::TempFile => 't' as u8,
            TransmissionMedium::SharedMemory => 's' as u8,
        }
    }
}

impl Default for TransmissionMedium {
    fn default() -> (m: TransmissionMedium)
        ensures
            m == TransmissionMedium::Direct,
    {
        TransmissionMedium::Direct
    }
}

/// How a payload is compressed.
#[derive(Debug, Clone, Copy, PartialEq, Eq, Hash, Structural)]
pub enum Compression {
    /// Deflate in a zlib container.
    Zlib,
}

impl Compression {
    /// The letter that stands for this compression on the wire.
    pub open spec fn wire(self) -> u8 {
        'z' as u8
    }

    /// The letter that stands for this compression on the wire.
    pub fn code(&self) -> (c: u8)
        ensures
            c == self.wire(),
    {
        'z' as u8
    }
}

/// What happens to the cursor after an image is placed.
#[derive(Debug, Clone, Copy, PartialEq, Eq, Hash, Structural)]
pub enum CursorPolicy {
    /// The cursor moves past the image. Nothing is sent for this policy.
    Default,
    /// The cursor stays where it is.
    NoMove,
}

impl CursorPolicy {
    /// The number that stands for this policy.
    pub open spec fn wire(self) -> u8 {
        match self {
            CursorPolicy::Default => 0,
            CursorPolicy::NoMove => 1,
        }
    }

    /// The number that stands for this policy.
    pub fn code(&self) -> (c: u8)
        ensures
            c == self.wire(),
    {
        match self {
            CursorPolicy::Default => 0,
            CursorPolicy::NoMove => 1,
        }
    }
}

impl Default for CursorPolicy {
    fn default() -> (p: CursorPolicy)
        ensures
            p == CursorPolicy::Default,
    {
        CursorPolicy::Default
    }
}

/// What a delete command removes. `free_data` asks the terminal to free the
/// image data as well; on the wire it turns the letter into its capital.
#[derive(Debug, Clone, Copy, PartialEq, Eq, Hash, Structural)]
pub enum DeleteTarget {
    /// All visible placements.
    All,
    /// All visible placements, freeing the image data.
    AllWithFree,
    /// The image with a given id.
    ById { free_data: bool },
    /// The image with a given number.
    ByNumber { free_data: bool },
    /// What lies under the cursor.
    AtCursor { free_data: bool },
    /// Animation frames.
    Frames { free_data: bool },
    /// What lies on a given cell.
    AtCell { free_data: bool },
    /// What lies on a given cell with a given z-index.
    AtCellWithZIndex { free_data: bool },
    /// The images in a range of ids.
    ByIdRange { free_data: bool },
    /// What lies in a given column.
    ByColumn { free_data: bool },
    /// What lies in a given row.
    ByRow { free_data: bool },
    /// What has a given z-index.
    ByZIndex { free_data: bool },
}

impl DeleteTarget {
    /// The lower-case letter of this target.
    pub open spec fn letter(self) -> char {
        match self {
            DeleteTarget::All => 'a',
            DeleteTarget::AllWithFree => 'a',
            DeleteTarget::ById { .. } => 'i',
            DeleteTarget::ByNumber { .. } => 'n',
            DeleteTarget::AtCursor { .. } => 'c',
            DeleteTarget::Frames { .. } => 'f',
            DeleteTarget::AtCell { .. } => 'p',
            DeleteTarget::AtCellWithZIndex { .. } => 'q',
            DeleteTarget::ByIdRange { .. } => 'r',
            DeleteTarget::ByColumn { .. } => 'x',
            DeleteTarget::ByRow { .. } => 'y',
            DeleteTarget::ByZIndex { .. } => 'z',
        }
    }

    /// Whether the terminal is asked to free the image data too.
    pub open spec fn frees(self) -> bool {
        match self {
            DeleteTarget::All => false,
            DeleteTarget::AllWithFree => true,
            DeleteTarget::ById { free_data } => free_data,
            DeleteTarget::ByNumber { free_data } => free_data,
            DeleteTarget::AtCursor { free_data } => free_data,
            DeleteTarget::Frames { free_data } => free_data,
            DeleteTarget::AtCell { free_data } => free_data,
            DeleteTarget::AtCellWithZIndex { free_data } => free_data,
            DeleteTarget::ByIdRange { free_data } => free_data,
            DeleteTarget::ByColumn { free_data } => free_data,
            DeleteTarget::ByRow { free_data } => free_data,
            DeleteTarget::ByZIndex { free_data } => free_data,
        }
    }

    /// The character that stands for this target on the wire: its letter, as
    /// a capital where the data is freed. A capital lies 32 below its letter.
    pub open spec fn wire(self) -> char {
        if self.frees() {
            ((self.letter() as u8 - 32) as u8) as char
        } else {
            self.letter()
        }
    }

    /// The character that stands for this target on the wire.
    pub fn code(&self) -> (c: char)
        ensures
            c == self.wire(),
    {
        match self {
            DeleteTarget::All => 'a',
            DeleteTarget::AllWithFree => 'A',
            DeleteTarget::ById { free_data: false } => 'i',
            DeleteTarget::ById { free_data: true } => 'I',
            DeleteTarget::ByNumber { free_data: false } => 'n',
            DeleteTarget::ByNumber { free_data: true } => 'N',
            DeleteTarget::AtCursor { free_data: false } => 'c',
            DeleteTarget::AtCursor { free_data: true } => 'C',
            DeleteTarget::Frames { free_data: false } => 'f',
            DeleteTarget::Frames { free_data: true } => 'F',
            DeleteTarget::AtCell { free_data: false } => 'p',
            DeleteTarget::AtCell { free_data: true } => 'P',
            DeleteTarget::AtCellWithZIndex { free_data: false } => 'q',
            DeleteTarget::AtCellWithZIndex { free_data: true } => 'Q',
            DeleteTarget::ByIdRange { free_data: false } => 'r',
            DeleteTarget::ByIdRange { free_data: true } => 'R',
            DeleteTarget::ByColumn { free_data: false } => 'x',
            DeleteTarget::ByColumn { free_data: true } => 'X',
            DeleteTarget::ByRow { free_data: false } => 'y',
            DeleteTarget::ByRow { free_data: true } => 'Y',
            DeleteTarget::ByZIndex { free_data: false } => 'z',
            DeleteTarget::ByZIndex { free_data: true } => 'Z',
        }
    }
}

/// The state that an animation is put into.
#[derive(Debug, Clone, Copy, PartialEq, Eq, Hash, Structural)]
pub enum AnimationControl {
    /// Stop the animation.
    Stop,
    /// Run it, waiting for more frames at the end.
    Loading,
    /// Run it, looping at the end.
    Run,
}

impl AnimationControl {
    /// The number that stands for this state on the wire.
    pub open spec fn wire(self) -> u8 {
        match self {
            AnimationControl::Stop => 1,
            AnimationControl::Loading => 2,
            AnimationControl::Run => 3,
        }
    }

    /// The number that stands for this state on the wire.
    pub fn code(&self) -> (c: u8)
        ensures
            c == self.wire(),
    {
        match self {
            AnimationControl::Stop => 1,
            AnimationControl::Loading => 2,
            AnimationControl::Run => 3,
        }
    }
}

/// How a frame is laid over another.
#[derive(Debug, Clone, Copy, PartialEq, Eq, Hash, Structural)]
pub enum CompositionMode {
    /// Blend by alpha.
    AlphaBlend,
    /// Replace the pixels.
    Replace,
}

impl CompositionMode {
    /// The number that stands for this mode on the wire.
    pub open spec fn wire(self) -> u8 {
        match self {
            CompositionMode::AlphaBlend => 0,
            CompositionMode::Replace => 1,
        }
    }

    /// The number that stands for this mode on the wire.
    pub fn code(&self) -> (c: u8)
        ensures
            c == self.wire(),
    {
        match self {
            CompositionMode::AlphaBlend => 0,
            CompositionMode::Replace => 1,
        }
    }
}

impl Default for CompositionMode {
    fn default() -> (m: CompositionMode)
        ensures
            m == CompositionMode::AlphaBlend,
    {
        CompositionMode::AlphaBlend
    }
}

/// The parameters of a frame composition.
#[derive(Debug, Clone, Copy, PartialEq, Eq, Structural)]
pub struct FrameComposition {
    /// The frame that is read, counted from 1.
    pub source_frame: u32,
    /// The frame that is written, counted from 1.
    pub dest_frame: u32,
    /// The width of the rectangle in pixels.
    pub width: Option<u32>,
    /// The height of the rectangle in pixels.
    pub height: Option<u32>,
    /// The left edge of the rectangle in the source frame.
    pub source_x: Option<u32>,
    /// The top edge of the rectangle in the source frame.
    pub source_y: Option<u32>,
    /// The left edge of the rectangle in the destination frame.
    pub dest_x: Option<u32>,
    /// The top edge of the rectangle in the destination frame.
    pub dest_y: Option<u32>,
    /// How the pixels are combined.
    pub mode: CompositionMode,
}

impl Default for FrameComposition {
    fn default() -> (c: FrameComposition)
        ensures
            c == (FrameComposition {
                source_frame: 1,
                dest_frame: 1,
                width: None,
                height: None,
                source_x: None,
                source_y: None,
                dest_x: None,
                dest_y: None,
                mode: CompositionMode::AlphaBlend,
            }),
    {
        FrameComposition {
            source_frame: 1,
            dest_frame: 1,
            width: None,
            height: None,
            source_x: None,
            source_y: None,
            dest_x: None,
            dest_y: None,
            mode: CompositionMode::AlphaBlend,
        }
    }
}

/// The size of a placeholder made of Unicode cells. Only its presence is
/// sent to the terminal.
#[derive(Debug, Clone, Copy, PartialEq, Eq, Hash, Structural)]
pub struct UnicodePlaceholder {
    /// The number of columns.
    pub columns: u16,
    /// The number of rows.
    pub rows: u16,
}

} // verus!
