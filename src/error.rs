use vstd::prelude::*;

verus! {

/// Color space of a raster image.
#[derive(Debug, Clone, Copy, PartialEq, Eq, Structural)]
pub enum ColorSpace {
    Unknown,
    Unspecified,
    SRGB,
    Gray,
    SYCC,
    EYCC,
    CMYK,
}

/// Errors reported by the library.
#[derive(Debug, Clone)]
pub enum Error {
    /// The component layout (count, alpha flags, precision) cannot be assembled.
    UnsupportedComponentsError(u32),
    /// The color space has no pixel layout this library understands.
    UnsupportedColorSpaceError(ColorSpace),
    /// The codec could not be created or rejected its configuration.
    CreateCodecError(String),
    /// A decode or encode phase failed.
    CodecError(String),
    /// Neither the magic bytes nor the file extension name a known container.
    UnknownFormatError(String),
    /// The named file does not exist.
    FileNotFoundError(String),
    /// The file name cannot be handed to the codec.
    BadFilenameError(String),
    /// The codec yielded no handle where one was expected.
    NullPointerError(String),
    /// A decode area could not be read from its text form.
    ParseAreaError(String),
}

} // verus!
