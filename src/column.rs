//! A container that distributes its contents vertically.
use vstd::prelude::*;
use crate::geometry::{Align, Justify, Length};

verus! {

/// A container that distributes its contents vertically.
///
/// A `Column` will try to fill the horizontal space of its container.
#[derive(Debug)]
pub struct Column<Element> {
    pub spacing: u16,
    pub padding: u16,
    pub width: Length,
    pub height: Length,
    pub max_width: Length,
    pub max_height: Length,
    pub align_self: Option<Align>,
    pub align_items: Align,
    pub justify_content: Justify,
    pub children: Vec<Element>,
}

impl<Element> Column<Element> {
    /// The column that `new` creates.
    pub open spec fn is_fresh(&self) -> bool {
        &&& self.spacing == 0
        &&& self.padding == 0
        &&& self.width == Length::Fill
        &&& self.height == Length::Shrink
        &&& self.max_width == Length::Shrink
        &&& self.max_height == Length::Shrink
        &&& self.align_self == None::<Align>
        &&& self.align_items == Align::Start
        &&& self.justify_content == Justify::Start
        &&& self.children@.len() == 0
    }

    /// Creates an empty `Column`.
    pub fn new() -> (r: Self)
        ensures
            r.is_fresh(),
    {
        Column {
            spacing: 0,
            padding: 0,
            width: Length::Fill,
            height: Length::Shrink,
            max_width: Length::Shrink,
            max_height: Length::Shrink,
            align_self: None,
            align_items: Align::Start,
            justify_content: Justify::Start,
            children: Vec::new(),
        }
    }

    /// Sets the vertical spacing _between_ elements.
    pub fn spacing(self, units: u16) -> (r: Self)
        ensures
            r == (Column { spacing: units, ..self }),
    {
        Column { spacing: units, ..self }
    }

    /// Sets the padding of the `Column`.
    pub fn padding(self, units: u16) -> (r: Self)
        ensures
            r == (Column { padding: units, ..self }),
    {
        Column { padding: units, ..self }
    }

    /// Sets the width of the `Column`.
    pub fn width(self, width: Length) -> (r: Self)
        ensures
            r == (Column { width: width, ..self }),
    {
        Column { width, ..self }
    }

    /// Sets the height of the `Column`.
    pub fn height(self, height: Length) -> (r: Self)
        ensures
            r == (Column { height: height, ..self }),
    {
        Column { height, ..self }
    }

    /// Sets the maximum width of the `Column`.
    pub fn max_width(self, max_width: Length) -> (r: Self)
        ensures
            r == (Column { max_width: max_width, ..self }),
    {
        Column { max_width, ..self }
    }

    /// Sets the maximum height of the `Column`.
    pub fn max_height(self, max_height: Length) -> (r: Self)
        ensures
            r == (Column { max_height: max_height, ..self }),
    {
        Column { max_height, ..self }
    }

    /// Sets the alignment of the `Column` itself, overriding the default
    /// alignment given by the parent container.
    pub fn align_self(self, align: Align) -> (r: Self)
        ensures
            r == (Column { align_self: Some(align), ..self }),
    {
        Column { align_self: Some(align), ..self }
    }

    /// Sets the horizontal alignment of the contents of the `Column`.
    pub fn align_items(self, align: Align) -> (r: Self)
        ensures
            r == (Column { align_items: align, ..self }),
    {
        Column { align_items: align, ..self }
    }

    /// Sets the vertical distribution strategy for the contents of the
    /// `Column`.
    pub fn justify_content(self, justify: Justify) -> (r: Self)
        ensures
            r == (Column { justify_content: justify, ..self }),
    {
        Column { justify_content: justify, ..self }
    }

    /// Adds an element at the end of the `Column`.
    pub fn push(self, child: Element) -> (r: Self)
        ensures
            r.children@ == self.children@.push(child),
            r == (Column { children: r.children, ..self }),
    {
        let mut s = self;
        s.children.push(child);
        s
    }
}

impl<Element> Default for Column<Element> {
    fn default() -> (r: Self)
        ensures
            r.is_fresh(),
    {
        Self::new()
    }
}

} // verus!
