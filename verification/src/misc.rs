//! General public items: the error values that the library hands back.

use vstd::prelude::*;

verus! {

/// A value that could not be converted, with the reason in words.
#[derive(Debug)]
pub struct ImgConversionError {
    details: String,
}

impl View for ImgConversionError {
    type V = Seq<char>;

    /// The reason, as a sequence of characters.
    closed spec fn view(&self) -> Seq<char> {
        self.details@
    }
}

impl ImgConversionError {
    /// An error whose reason is `msg`.
    pub fn new(msg: &str) -> (e: ImgConversionError)
        ensures
            e@ == msg@,
    {
        ImgConversionError { details: msg.to_owned() }
    }

    /// The reason this error was made with.
    pub fn message(&self) -> (s: String)
        ensures
            s@ == self@,
    {
        self.details.clone()
    }
}

/// Why an operation on an image failed.
#[derive(Clone, Copy, Debug, PartialEq, Eq, Structural)]
pub enum ImgError {
    /// The bytes are not an image in a format that is known and can be read.
    Decode,
    /// The image cannot be written in the format asked for.
    Encode,
    /// A tolerance whose square does not fit the range of a distance.
    ArithmeticOverflow,
    /// An image without pixels was asked for: its width or its height is zero.
    EmptyImage,
    /// The image has more pixels than can be held in memory.
    TooLarge,
    /// The samples handed over are not four for each pixel of the image.
    SampleCount,
    /// The image holds its samples as fractions, not as whole numbers.
    NotInteger,
    /// A path that is not absolute was given, and there is no current
    /// directory to take it from.
    WorkingDirectory,
}

} // verus!
