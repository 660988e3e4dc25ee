//! A container that distributes its contents horizontally.
use vstd::prelude::*;
use crate::geometry::{Align, Justify, Length};

verus! {

/// A container that distributes its contents horizontally.
///
/// A `Row` will try to fill the vertical space of its container.
#[derive(Debug)]
pub struct Row<Element> {
    pub spacing: u16,
    pub padding: u16,
    pub width: Length,
    pub height: Length,
    pub max_width: Length,
    pub max_height: Length,
    pub align_self: Option<Align>,
    pub align_items: Align,
    pub justify_content: Justify,
    pub children: Vec<Element>,
}

impl<Element> Row<Element> {
    /// The column that `new` creates.
    pub open spec fn is_fresh(&self) -> bool {
        &&& self.spacing == 0
        &&& self.padding == 0
        &&& self.width == Length::Fill
        &&& self.height == Length::Shrink
        &&& self.max_width == Length::Shrink
        &&& self.max_height == Length::Shrink
        &&& self.align_self == None::<Align>
        &&& self.align_items == Align::Start
        &&& self.justify_content == Justify::Start
        &&& self.children@.len() == 0
    }

    /// Creates an empty `Row`.
    pub fn new() -> (r: Self)
        ensures
            r.is_fresh(),
    {
        Row {
            spacing: 0,
            padding: 0,
            width: Length::Fill,
            height: Length::Shrink,
            max_width: Length::Shrink,
            max_height: Length::Shrink,
            align_self: None,
            align_items: Align::Start,
            justify_content: Justify::Start,
            children: Vec::new(),
        }
    }

    /// Sets the horizontal spacing _between_ elements.
    pub fn spacing(self, units: u16) -> (r: Self)
        ensures
            r == (Row { spacing: units, ..self }),
    {
        Row { spacing: units, ..self }
    }

    /// Sets the padding of the `Row`.
    pub fn padding(self, units: u16) -> (r: Self)
        ensures
            r == (Row { padding: units, ..self }),
    {
        Row { padding: units, ..self }
    }

    /// Sets the width of the `Row`.
    pub fn width(self, width: Length) -> (r: Self)
        ensures
            r == (Row { width: width, ..self }),
    {
        Row { width, ..self }
    }

    /// Sets the height of the `Row`.
    pub fn height(self, height: Length) -> (r: Self)
        ensures
            r == (Row { height: height, ..self }),
    {
        Row { height, ..self }
    }

    /// Sets the maximum width of the `Row`.
    pub fn max_width(self, max_width: Length) -> (r: Self)
        ensures
            r == (Row { max_width: max_width, ..self }),
    {
        Row { max_width, ..self }
    }

    /// Sets the maximum height of the `Row`.
    pub fn max_height(self, max_height: Length) -> (r: Self)
        ensures
            r == (Row { max_height: max_height, ..self }),
    {
        Row { max_height, ..self }
    }

    /// Sets the alignment of the `Row` itself, overriding the default
    /// alignment given by the parent container.
    pub fn align_self(self, align: Align) -> (r: Self)
        ensures
            r == (Row { align_self: Some(align), ..self }),
    {
        Row { align_self: Some(align), ..self }
    }

    /// Sets the vertical alignment of the contents of the `Row`.
    pub fn align_items(self, align: Align) -> (r: Self)
        ensures
            r == (Row { align_items: align, ..self }),
    {
        Row { align_items: align, ..self }
    }

    /// Sets the horizontal distribution strategy for the contents of the
    /// `Row`.
    pub fn justify_content(self, justify: Justify) -> (r: Self)
        ensures
            r == (Row { justify_content: justify, ..self }),
    {
        Row { justify_content: justify, ..self }
    }

    /// Adds an element at the end of the `Row`.
    pub fn push(self, child: Element) -> (r: Self)
        ensures
            r.children@ == self.children@.push(child),
            r == (Row { children: r.children, ..self }),
    {
        let mut s = self;
        s.children.push(child);
        s
    }
}

impl<Element> Default for Row<Element> {
    fn default() -> (r: Self)
        ensures
            r.is_fresh(),
    {
        Self::new()
    }
}

} // verus!
