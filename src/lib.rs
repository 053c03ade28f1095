//! Safe, verified core of a JPEG 2000 binding: container detection, the
//! memory-backed stream cursor handed to the codec, decode parameters, the
//! order of codec calls in a decode or encode, and the assembly of decoded
//! components into packed pixel buffers.

pub mod codec;
pub mod error;
pub mod format;
pub mod image;
pub mod pixel;
pub mod session;
pub mod stream;

pub use codec::{DecodeArea, DecodeParameters, EncodeParameters};
pub use error::{ColorSpace, Error};
pub use format::{j2k_detect_format, j2k_detect_format_from_extension, J2KFormat};
pub use image::{Image, ImageComponent, ImageData, ImageFormat, ImagePixelData, PixelLayout, TextureData, TextureFormat};
pub use session::{DecodeAction, DecodeSession, DecodeStage, EncodeSession, EncodeStage};
pub use stream::WrappedSlice;
