//! A native text field: its configuration, its reconciliation against a
//! native view and the translation of native change notifications into
//! application messages.
use vstd::prelude::*;
use crate::geometry::Length;
use crate::native::{Reconcile, WidgetEvent, WidgetNode, WidgetType};

verus! {

/// A field that can be filled with text.
///
/// `on_change` builds the application's message from the new value.
#[verifier::reject_recursive_types(Message)]
pub struct TextInput<Message, F: Fn(String) -> Message> {
    pub placeholder: String,
    pub value: String,
    pub is_secure: bool,
    pub width: Length,
    pub max_width: u32,
    pub padding: u16,
    pub size: Option<u16>,
    pub on_change: F,
    pub on_submit: Option<Message>,
    /// The identity under which the native view's notifications arrive.
    pub widget_id: u64,
}

/// The local state of a `TextInput`.
#[derive(Clone, Copy, Debug, PartialEq, Eq, Structural)]
pub struct State {}

impl State {
    /// Creates a new `State`, representing an unfocused `TextInput`.
    pub fn new() -> (r: Self)
        ensures
            r == (State {}),
    {
        State {}
    }

    /// Creates a new `State`, representing a focused `TextInput`.
    pub fn focused() -> (r: Self)
        ensures
            r == (State {}),
    {
        State {}
    }
}

impl Default for State {
    fn default() -> (r: Self)
        ensures
            r == (State {}),
    {
        State {}
    }
}

/// Whether `s` ends with a line feed.
pub open spec fn ends_with_newline(s: Seq<char>) -> bool {
    s.len() > 0 && s.last() == '\n'
}

/// Relies on `str::ends_with`, which tells whether the pattern is a suffix.
#[verifier::external_body]
fn str_ends_with_newline(s: &str) -> (r: bool)
    ensures
        r == ends_with_newline(s@),
{
    s.ends_with('\n')
}

/// What a text input emits for one native change notification.
pub enum Outcome<Message, F> {
    /// The pending submit message.
    Submit(Message),
    /// A message built by `on_change` from the given text.
    Change(F, String),
}

/// Whether `m` is the message that `o` stands for.
pub open spec fn fits<Message, F: Fn(String) -> Message>(m: Message, o: Outcome<Message, F>) -> bool {
    match o {
        Outcome::Submit(s) => m == s,
        Outcome::Change(f, text) => f.ensures((text,), m),
    }
}

impl<Message, F: Fn(String) -> Message> TextInput<Message, F> {
    /// Creates a new `TextInput` with a placeholder, the current value and
    /// the function that produces a message when the value changes.
    pub fn new(state: &mut State, placeholder: &str, value: &str, on_change: F) -> (r: Self)
        ensures
            r.placeholder@ == placeholder@,
            r.value@ == value@,
            !r.is_secure,
            r.width == Length::Fill,
            r.max_width == u32::MAX,
            r.padding == 0,
            r.size == None::<u16>,
            r.on_change == on_change,
            r.on_submit.is_none(),
            r.widget_id == 0,
            *final(state) == *old(state),
    {
        TextInput {
            placeholder: placeholder.to_owned(),
            value: value.to_owned(),
            is_secure: false,
            width: Length::Fill,
            max_width: u32::MAX,
            padding: 0,
            size: None,
            on_change,
            on_submit: None,
            widget_id: 0,
        }
    }

    /// Converts the `TextInput` into a secure password input.
    pub fn password(self) -> (r: Self)
        ensures
            r == (TextInput { is_secure: true, ..self }),
    {
        TextInput { is_secure: true, ..self }
    }

    /// Sets the width of the `TextInput`.
    pub fn width(self, width: Length) -> (r: Self)
        ensures
            r == (TextInput { width: width, ..self }),
    {
        TextInput { width, ..self }
    }

    /// Sets the maximum width of the `TextInput`.
    pub fn max_width(self, max_width: u32) -> (r: Self)
        ensures
            r == (TextInput { max_width: max_width, ..self }),
    {
        TextInput { max_width, ..self }
    }

    /// Sets the padding of the `TextInput`.
    pub fn padding(self, units: u16) -> (r: Self)
        ensures
            r == (TextInput { padding: units, ..self }),
    {
        TextInput { padding: units, ..self }
    }

    /// Sets the text size of the `TextInput`.
    pub fn size(self, size: u16) -> (r: Self)
        ensures
            r == (TextInput { size: Some(size), ..self }),
    {
        TextInput { size: Some(size), ..self }
    }

    /// Sets the message produced when the enter key is pressed.
    pub fn on_submit(self, message: Message) -> (r: Self)
        ensures
            r == (TextInput { on_submit: Some(message), ..self }),
    {
        TextInput { on_submit: Some(message), ..self }
    }

    /// Whether `on_change` accepts every value.
    pub open spec fn wf(&self) -> bool {
        forall|v: String| #[trigger] self.on_change.requires((v,))
    }

    /// The kind of native view this widget is shown by.
    pub fn get_widget_type(&self) -> (r: WidgetType)
        ensures
            r == WidgetType::TextInput,
    {
        WidgetType::TextInput
    }

    /// The reconciliation decision for this tree position: a node that was
    /// materialized before is reused as it is; otherwise a native text view
    /// has to be created under `parent`.
    pub open spec fn spec_update_or_add(parent: Option<u64>, old_node: Option<WidgetNode>) -> Reconcile {
        match old_node {
            Some(n) => Reconcile::Reuse(n),
            None => Reconcile::Create { parent, widget_type: WidgetType::TextInput },
        }
    }

    /// Decides between reusing `old_node` and creating a native view.
    pub fn update_or_add(&mut self, parent: Option<u64>, old_node: Option<WidgetNode>) -> (r: Reconcile)
        ensures
            r == Self::spec_update_or_add(parent, old_node),
            *final(self) == *old(self),
    {
        match old_node {
            Some(n) => Reconcile::Reuse(n),
            None => Reconcile::Create { parent, widget_type: WidgetType::TextInput },
        }
    }

    /// Records the native view created for this widget and the identity its
    /// notifications carry, and returns the node that stands for it.
    pub fn attach(&mut self, view_id: u64, widget_id: u64) -> (r: WidgetNode)
        ensures
            r.is_leaf(Some(view_id), WidgetType::TextInput),
            *final(self) == (TextInput { widget_id: widget_id, ..*old(self) }),
    {
        self.widget_id = widget_id;
        WidgetNode::leaf(Some(view_id), WidgetType::TextInput)
    }

    /// Whether a notification is meant for the view of `widget_node`.
    pub open spec fn is_target(event: WidgetEvent, widget_node: WidgetNode) -> bool {
        widget_node.view_id == Some(event.id)
    }

    /// What a notification makes this input emit, in order.
    pub open spec fn outcomes(&self, event: WidgetEvent, widget_node: WidgetNode) -> Seq<Outcome<Message, F>> {
        if !Self::is_target(event, widget_node) {
            Seq::empty()
        } else if ends_with_newline(event.text@) {
            match self.on_submit {
                Some(m) => seq![Outcome::Submit(m)],
                None => Seq::empty(),
            }
        } else {
            seq![Outcome::Change(self.on_change, event.text)]
        }
    }

    /// The input as it stands after a notification: a submit consumes the
    /// pending submit message, a change stores the new value.
    pub open spec fn after(&self, new: Self, event: WidgetEvent, widget_node: WidgetNode) -> bool {
        if !Self::is_target(event, widget_node) {
            new == *self
        } else if ends_with_newline(event.text@) {
            new == (TextInput { on_submit: None, ..*self })
        } else {
            &&& new == (TextInput { value: new.value, ..*self })
            &&& new.value@ == event.text@
        }
    }

    /// Handles a native change notification. A text that ends with a line
    /// feed is a submit: the pending submit message, if any, is emitted and
    /// the value is kept. Any other text becomes the value and is handed to
    /// `on_change`, whose message is emitted.
    pub fn on_widget_event(&mut self, event: &WidgetEvent, messages: &mut Vec<Message>, widget_node: &WidgetNode)
        requires
            old(self).wf(),
        ensures
            old(self).after(*final(self), *event, *widget_node),
            final(messages)@.len() == old(messages)@.len() + old(self).outcomes(*event, *widget_node).len(),
            final(messages)@.subrange(0, old(messages)@.len() as int) == old(messages)@,
            forall|k: int| 0 <= k < old(self).outcomes(*event, *widget_node).len() ==>
                fits(#[trigger] final(messages)@[old(messages)@.len() + k], old(self).outcomes(*event, *widget_node)[k]),
    {
        let ghost m0 = messages@;
        let matches = match widget_node.view_id {
            Some(id) => id == event.id,
            None => false,
        };
        if matches {
            if str_ends_with_newline(event.text.as_str()) {
                if let Some(on_submit) = self.on_submit.take() {
                    messages.push(on_submit);
                }
            } else {
                self.value = event.text.clone();
                let v = self.value.clone();
                let ghost gv = v;
                let m = (self.on_change)(v);
                messages.push(m);
                proof {
                    assert(self.on_change.ensures((gv,), m));
                    assert(fits(messages@[m0.len() as int], Outcome::Change(self.on_change, event.text)));
                }
            }
        }
        proof {
            assert(messages@.subrange(0, m0.len() as int) =~= m0);
        }
    }
}

/// Materializing a text input at a fresh tree position asks for one native
/// view; handing the node it gave back on the next frame returns that very
/// node, and asks for no new view.
pub proof fn lemma_reuse_round_trip<Message, F: Fn(String) -> Message>(
    parent: Option<u64>,
    next_parent: Option<u64>,
    view_id: u64,
    node: WidgetNode,
)
    requires
        node.is_leaf(Some(view_id), WidgetType::TextInput),
    ensures
        TextInput::<Message, F>::spec_update_or_add(parent, None) == (Reconcile::Create {
            parent,
            widget_type: WidgetType::TextInput,
        }),
        TextInput::<Message, F>::spec_update_or_add(next_parent, Some(node)) == Reconcile::Reuse(node),
{
}

} // verus!
