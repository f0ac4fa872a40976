//! The values that the image tool hands to its front end.
use vstd::prelude::*;

verus! {

/// The encodings that a processed image can be saved in.
#[derive(Debug, Clone, Copy, PartialEq, Eq)]
pub enum OutputFormat {
    Png,
    Jpg,
    WebP,
}

pub open spec fn format_name(f: OutputFormat) -> Seq<char> {
    match f {
        OutputFormat::Png => "png"@,
        OutputFormat::Jpg => "jpg"@,
        OutputFormat::WebP => "webp"@,
    }
}

impl OutputFormat {
    /// The file extension of the format.
    pub fn to_str(&self) -> (r: &'static str)
        ensures
            r@ == format_name(*self),
    {
        match self {
            OutputFormat::Png => "png",
            OutputFormat::Jpg => "jpg",
            OutputFormat::WebP => "webp",
        }
    }
}

impl Default for OutputFormat {
    fn default() -> (r: OutputFormat)
        ensures
            r == OutputFormat::Png,
    {
        OutputFormat::Png
    }
}

/// A file chosen for processing: where it is, its size in bytes and its dimensions.
#[derive(Debug, Clone)]
pub struct ImageInfo {
    pub path: String,
    pub name: String,
    pub size: u64,
    pub width: u32,
    pub height: u32,
}

/// An encoded result with its dimensions and the sizes before and after.
#[derive(Debug, Clone)]
pub struct ProcessResult {
    pub data: Vec<u8>,
    pub width: u32,
    pub height: u32,
    pub original_size: u64,
    pub processed_size: usize,
}

/// The original image re-encoded for display, with its size and dimensions.
#[derive(Debug, Clone)]
pub struct OriginalImageResult {
    pub image_data: Vec<u8>,
    pub original_size: u64,
    pub width: u32,
    pub height: u32,
}

} // verus!
