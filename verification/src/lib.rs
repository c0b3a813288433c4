//! A structural codec for the GIF container format (versions 87a/89a).
//!
//! The library decodes a byte stream into a [`GIF`] value that preserves
//! every structural block exactly as found — header, screen descriptor,
//! color tables, per-frame extensions, image descriptors, image-data
//! sub-blocks and trailer — without interpreting the compressed pixel
//! payload, and re-encodes such a value back to bytes. Decoding and
//! encoding are specified against a mathematical model of the format, and
//! a well-formed container round-trips bit for bit.

pub mod decode;
pub mod encode;
pub mod packed;
pub mod roundtrip;
pub mod transform;
pub mod types;

pub use decode::decode_gif;
pub use encode::encode_gif;

pub use types::{
    GIF, GIFHeader, LogicalScreenDescriptor, LSDPackedFields, GlobalColorTable, Color,
    ImageDescriptor, IDPackedFields, LocalColorTable, ImageData, GIFDataSubBlock,
    GraphicControlExtension, GCEPackedFields, CommentExtension, PlainTextExtension,
    ApplicationExtension, Trailer, GIFImage, GIFError,
};
