//! The persistent state that links widget tree positions to native views.
use vstd::prelude::*;

verus! {

/// The kind of native view behind a widget.
#[derive(Clone, Copy, Debug, PartialEq, Eq, Hash, Structural)]
pub enum WidgetType {
    Row,
    Column,
    Image,
    TextInput,
}

/// State of one tree position that survives across frames: the native view
/// shown there, if any, its kind and the nodes of the child positions.
pub struct WidgetNode {
    pub view_id: Option<u64>,
    pub widget_type: WidgetType,
    pub children: Vec<WidgetNode>,
}

impl WidgetNode {
    /// Whether this is a node for `view_id` and `widget_type` without children.
    pub open spec fn is_leaf(&self, view_id: Option<u64>, widget_type: WidgetType) -> bool {
        &&& self.view_id == view_id
        &&& self.widget_type == widget_type
        &&& self.children@.len() == 0
    }

    /// A node without children.
    pub fn leaf(view_id: Option<u64>, widget_type: WidgetType) -> (r: WidgetNode)
        ensures
            r.is_leaf(view_id, widget_type),
    {
        WidgetNode { view_id, widget_type, children: Vec::new() }
    }
}

/// A native change notification, with the text the view holds now.
pub struct WidgetEvent {
    /// The identity of the native view that sent it.
    pub id: u64,
    /// The identity registered for that view.
    pub widget_id: u64,
    /// The view's text, decoded.
    pub text: String,
}

/// The decision for one tree position in a frame.
pub enum Reconcile {
    /// Keep the node materialized before, as it is.
    Reuse(WidgetNode),
    /// Allocate a native view of the given kind, attached under `parent`.
    Create { parent: Option<u64>, widget_type: WidgetType },
}

} // verus!
