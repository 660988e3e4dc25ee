//! Display images in a user interface.
use vstd::prelude::*;
use crate::geometry::{Align, Length, Rectangle};

verus! {

/// A frame that displays an image while keeping aspect ratio.
#[derive(Debug)]
pub struct Image {
    /// The image path
    pub path: String,
    /// The part of the image to show
    pub clip: Option<Rectangle<u16>>,
    /// The width of the image
    pub width: Length,
    /// The height of the image
    pub height: Length,
    pub align_self: Option<Align>,
}

impl Image {
    /// Creates a new `Image` with the given path.
    pub fn new(path: String) -> (r: Self)
        ensures
            r.path == path,
            r.clip == None::<Rectangle<u16>>,
            r.width == Length::Shrink,
            r.height == Length::Shrink,
            r.align_self == None::<Align>,
    {
        Image { path, clip: None, width: Length::Shrink, height: Length::Shrink, align_self: None }
    }

    /// Sets the portion of the `Image` to draw.
    pub fn clip(self, clip: Rectangle<u16>) -> (r: Self)
        ensures
            r == (Image { clip: Some(clip), ..self }),
    {
        Image { clip: Some(clip), ..self }
    }

    /// Sets the width of the `Image` boundaries.
    pub fn width(self, width: Length) -> (r: Self)
        ensures
            r == (Image { width: width, ..self }),
    {
        Image { width, ..self }
    }

    /// Sets the height of the `Image` boundaries.
    pub fn height(self, height: Length) -> (r: Self)
        ensures
            r == (Image { height: height, ..self }),
    {
        Image { height, ..self }
    }

    /// Sets the alignment of the `Image` itself, overriding the default
    /// alignment given by the parent container.
    pub fn align_self(self, align: Align) -> (r: Self)
        ensures
            r == (Image { align_self: Some(align), ..self }),
    {
        Image { align_self: Some(align), ..self }
    }
}

} // verus!
