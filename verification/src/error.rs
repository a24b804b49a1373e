//! Why a document could not be built.

use vstd::prelude::*;

verus! {

/// Why a document could not be built. No bytes are returned with it.
#[derive(Clone, Copy, Debug, PartialEq, Eq, Structural)]
pub enum BuildError {
    /// The layout holds no item on a page, or divides the image by zero.
    InvalidLayout,
    /// The subject has no characters.
    EmptySubject,
    /// There are not as many prices as labels.
    LengthMismatch,
    /// The pages take more objects than there are ids.
    TooManyPages,
    /// There are not as many images as pages.
    ImageCountMismatch,
    /// The operations of a page could not be encoded.
    Encoding,
    /// The finished object graph could not be written.
    Serialization,
}

impl BuildError {
    /// A sentence that says what went wrong.
    pub fn message(&self) -> (text: &'static str)
        ensures
            text@ == match *self {
                BuildError::InvalidLayout => "the layout is not valid"@,
                BuildError::TooManyPages => "the pages take more objects than there are ids"@,
                BuildError::EmptySubject => "the subject is empty"@,
                BuildError::LengthMismatch => "labels and prices differ in number"@,
                BuildError::ImageCountMismatch => "images and pages differ in number"@,
                BuildError::Encoding => "a page's operations could not be encoded"@,
                BuildError::Serialization => "the document could not be written"@,
            },
    {
        match self {
            BuildError::InvalidLayout => "the layout is not valid",
            BuildError::TooManyPages => "the pages take more objects than there are ids",
            BuildError::EmptySubject => "the subject is empty",
            BuildError::LengthMismatch => "labels and prices differ in number",
            BuildError::ImageCountMismatch => "images and pages differ in number",
            BuildError::Encoding => "a page's operations could not be encoded",
            BuildError::Serialization => "the document could not be written",
        }
    }
}

} // verus!
