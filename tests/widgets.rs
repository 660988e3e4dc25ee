use iced_widgets::column::Column;
use iced_widgets::geometry::{Align, Justify, Length, Rectangle};
use iced_widgets::hasher::Hasher;
use iced_widgets::image::Image;
use iced_widgets::layout::{FlexDirection, Node, Style};
use iced_widgets::native::{Reconcile, WidgetEvent, WidgetNode, WidgetType};
use iced_widgets::row::Row;
use iced_widgets::text_input::{State, TextInput};
use iced_widgets::widget::Element;

#[derive(Debug, Clone, PartialEq)]
enum Msg {
    Changed(String),
    Submitted,
}

type OnChange = fn(String) -> Msg;
type El = Element<Msg, OnChange>;

fn changed(s: String) -> Msg {
    Msg::Changed(s)
}

fn input(value: &str) -> TextInput<Msg, OnChange> {
    let mut state = State::new();
    TextInput::new(&mut state, "placeholder", value, changed as OnChange)
}

fn event(id: u64, text: &str) -> WidgetEvent {
    WidgetEvent { id, widget_id: 1, text: text.to_string() }
}

fn leaf(view_id: u64) -> WidgetNode {
    WidgetNode::leaf(Some(view_id), WidgetType::TextInput)
}

fn words(e: &El) -> u64 {
    let mut h = Hasher::new();
    e.hash_layout(&mut h);
    h.finish()
}

#[test]
fn column_new_has_defaults() {
    let c: Column<El> = Column::new();
    assert_eq!(c.spacing, 0);
    assert_eq!(c.padding, 0);
    assert_eq!(c.width, Length::Fill);
    assert_eq!(c.height, Length::Shrink);
    assert_eq!(c.max_width, Length::Shrink);
    assert_eq!(c.max_height, Length::Shrink);
    assert_eq!(c.align_self, None);
    assert_eq!(c.align_items, Align::Start);
    assert_eq!(c.justify_content, Justify::Start);
    assert!(c.children.is_empty());
}

#[test]
fn column_builders_set_fields() {
    let c: Column<u8> = Column::default()
        .spacing(3)
        .padding(4)
        .width(Length::Units(7))
        .height(Length::FillPortion(2))
        .max_width(Length::Units(100))
        .max_height(Length::Fill)
        .align_self(Align::End)
        .align_items(Align::Center)
        .justify_content(Justify::SpaceBetween)
        .push(1)
        .push(2);
    assert_eq!(c.spacing, 3);
    assert_eq!(c.padding, 4);
    assert_eq!(c.width, Length::Units(7));
    assert_eq!(c.height, Length::FillPortion(2));
    assert_eq!(c.max_width, Length::Units(100));
    assert_eq!(c.max_height, Length::Fill);
    assert_eq!(c.align_self, Some(Align::End));
    assert_eq!(c.align_items, Align::Center);
    assert_eq!(c.justify_content, Justify::SpaceBetween);
    assert_eq!(c.children, vec![1, 2]);
}

#[test]
fn image_builders_set_fields() {
    let clip = Rectangle { x: 1, y: 2, width: 3, height: 4 };
    let i = Image::new("ferris.png".to_string());
    assert_eq!(i.path, "ferris.png");
    assert_eq!(i.clip, None);
    assert_eq!(i.width, Length::Shrink);
    assert_eq!(i.height, Length::Shrink);
    assert_eq!(i.align_self, None);
    let i = i.clip(clip).width(Length::Units(5)).height(Length::Fill).align_self(Align::Center);
    assert_eq!(i.clip, Some(clip));
    assert_eq!(i.width, Length::Units(5));
    assert_eq!(i.height, Length::Fill);
    assert_eq!(i.align_self, Some(Align::Center));
}

#[test]
fn state_constructors() {
    assert_eq!(State::new(), State::focused());
    assert_eq!(State::default(), State::new());
}

#[test]
fn text_input_builders_set_fields() {
    let t = input("abc");
    assert_eq!(t.placeholder, "placeholder");
    assert_eq!(t.value, "abc");
    assert!(!t.is_secure);
    assert_eq!(t.width, Length::Fill);
    assert_eq!(t.max_width, u32::MAX);
    assert_eq!(t.padding, 0);
    assert_eq!(t.size, None);
    assert_eq!(t.on_submit, None);
    let t = t.password().width(Length::Units(9)).max_width(50).padding(2).size(14).on_submit(Msg::Submitted);
    assert!(t.is_secure);
    assert_eq!(t.width, Length::Units(9));
    assert_eq!(t.max_width, 50);
    assert_eq!(t.padding, 2);
    assert_eq!(t.size, Some(14));
    assert_eq!(t.on_submit, Some(Msg::Submitted));
    assert_eq!(t.get_widget_type(), WidgetType::TextInput);
}

#[test]
fn column_spacing_scenario() {
    let a = Image::new("a".to_string()).height(Length::Units(10));
    let b = Image::new("b".to_string()).height(Length::Units(20));
    let col: El = Element::Column(Column::new().spacing(5).push(Element::Image(a)).push(Element::Image(b)));
    let node: Node = col.node();
    assert_eq!(node.children.len(), 2);
    assert_eq!(node.children[0].style.margin_end, Some(5));
    assert_eq!(node.children[1].style.margin_end, None);
    assert_eq!(node.children[0].style.height, Some(Length::Units(10)));
    assert_eq!(node.children[1].style.height, Some(Length::Units(20)));
    assert_eq!(node.style.align_items, Some(Align::Start));
    assert_eq!(node.style.justify_content, Some(Justify::Start));
    assert_eq!(node.style.flex_direction, FlexDirection::Column);
    assert_eq!(node.style.width, Some(Length::Fill));
    assert_eq!(node.style.margin_end, None);
}

#[test]
fn row_node_spacing_on_all_but_last() {
    let row: El = Element::Row(
        Row::new()
            .spacing(8)
            .padding(3)
            .push(Element::TextInput(input("x")))
            .push(Element::Image(Image::new("p".to_string())))
            .push(Element::Column(Column::new())),
    );
    let node = row.node();
    assert_eq!(node.style.flex_direction, FlexDirection::Row);
    assert_eq!(node.style.padding, 3);
    assert_eq!(node.children.len(), 3);
    assert_eq!(node.children[0].style.margin_end, Some(8));
    assert_eq!(node.children[1].style.margin_end, Some(8));
    assert_eq!(node.children[2].style.margin_end, None);
    assert_eq!(node.children[2].style.flex_direction, FlexDirection::Column);
    assert!(node.children[2].children.is_empty());
}

#[test]
fn single_and_empty_containers_have_no_margins() {
    let empty: El = Element::Row(Row::new().spacing(4));
    assert!(empty.node().children.is_empty());
    let one: El = Element::Column(Column::new().spacing(4).push(Element::Image(Image::new("i".to_string()))));
    let node = one.node();
    assert_eq!(node.children.len(), 1);
    assert_eq!(node.children[0].style.margin_end, None);
}

#[test]
fn leaf_nodes_carry_sizing() {
    let t: El = Element::TextInput(input("v").width(Length::Units(30)).padding(6));
    let n = t.node();
    assert_eq!(n.style.width, Some(Length::Units(30)));
    assert_eq!(n.style.padding, 6);
    assert!(n.children.is_empty());
    assert_eq!(Style::empty().width, None);
}

#[test]
fn hash_ignores_text_value() {
    let a: El = Element::Column(Column::new().push(Element::TextInput(input("one"))));
    let b: El = Element::Column(Column::new().push(Element::TextInput(input("two"))));
    assert_eq!(words(&a), words(&b));
}

#[test]
fn hash_ignores_image_path() {
    let a: El = Element::Image(Image::new("a.png".to_string()));
    let b: El = Element::Image(Image::new("b.png".to_string()));
    assert_eq!(words(&a), words(&b));
}

#[test]
fn hash_changes_with_layout_fields() {
    let base = || -> El { Element::Column(Column::new().push(Element::TextInput(input("v")))) };
    let h = words(&base());
    let wider: El = Element::Column(Column::new().width(Length::Units(3)).push(Element::TextInput(input("v"))));
    let spaced: El = Element::Column(Column::new().spacing(1).push(Element::TextInput(input("v"))));
    let padded: El = Element::Column(Column::new().padding(1).push(Element::TextInput(input("v"))));
    let more: El = Element::Column(
        Column::new().push(Element::TextInput(input("v"))).push(Element::TextInput(input("v"))),
    );
    let row: El = Element::Row(Row::new().push(Element::TextInput(input("v"))));
    let inner: El = Element::Column(Column::new().push(Element::TextInput(input("v").size(3))));
    for other in [wider, spaced, padded, more, row, inner] {
        assert_ne!(words(&other), h);
    }
}

#[test]
fn hash_changes_with_child_order() {
    let a: El = Element::Row(
        Row::new()
            .push(Element::Image(Image::new("i".to_string())))
            .push(Element::TextInput(input("t"))),
    );
    let b: El = Element::Row(
        Row::new()
            .push(Element::TextInput(input("t")))
            .push(Element::Image(Image::new("i".to_string()))),
    );
    assert_ne!(words(&a), words(&b));
}

#[test]
fn hasher_digest_depends_on_words() {
    let mut a = Hasher::new();
    let mut b = Hasher::new();
    a.write(1);
    b.write(2);
    assert_ne!(a.finish(), b.finish());
    let mut c = Hasher::new();
    c.write(1);
    assert_eq!(a.finish(), c.finish());
}

#[test]
fn text_input_submit_on_trailing_newline() {
    let mut t = input("hello").on_submit(Msg::Submitted);
    let node = leaf(7);
    let mut messages = Vec::new();
    t.on_widget_event(&event(7, "hello\n"), &mut messages, &node);
    assert_eq!(messages, vec![Msg::Submitted]);
    assert_eq!(t.value, "hello");
    assert_eq!(t.on_submit, None);
}

#[test]
fn text_input_submit_without_pending_message_emits_nothing() {
    let mut t = input("x");
    let mut messages = Vec::new();
    t.on_widget_event(&event(7, "x\n"), &mut messages, &leaf(7));
    assert!(messages.is_empty());
    assert_eq!(t.value, "x");
}

#[test]
fn text_input_change_emits_on_change() {
    let mut t = input("");
    let mut messages = vec![Msg::Submitted];
    t.on_widget_event(&event(7, "hello"), &mut messages, &leaf(7));
    assert_eq!(messages, vec![Msg::Submitted, Msg::Changed("hello".to_string())]);
    assert_eq!(t.value, "hello");
}

#[test]
fn text_input_ignores_other_views() {
    let mut t = input("keep");
    let mut messages = Vec::new();
    t.on_widget_event(&event(8, "other"), &mut messages, &leaf(7));
    assert!(messages.is_empty());
    assert_eq!(t.value, "keep");
    let mut messages = Vec::new();
    t.on_widget_event(&event(8, "other"), &mut messages, &WidgetNode::leaf(None, WidgetType::TextInput));
    assert!(messages.is_empty());
}

#[test]
fn reconcile_creates_then_reuses() {
    let mut t = input("");
    match t.update_or_add(Some(3), None) {
        Reconcile::Create { parent, widget_type } => {
            assert_eq!(parent, Some(3));
            assert_eq!(widget_type, WidgetType::TextInput);
        }
        Reconcile::Reuse(_) => panic!("a fresh position has no node to reuse"),
    }
    let node = t.attach(42, 9);
    assert_eq!(t.widget_id, 9);
    assert_eq!(node.view_id, Some(42));
    assert_eq!(node.widget_type, WidgetType::TextInput);
    match t.update_or_add(Some(3), Some(node)) {
        Reconcile::Reuse(n) => {
            assert_eq!(n.view_id, Some(42));
            assert_eq!(n.widget_type, WidgetType::TextInput);
            assert!(n.children.is_empty());
        }
        Reconcile::Create { .. } => panic!("a materialized node is reused"),
    }
}

#[test]
fn dispatch_visits_children_in_order() {
    let tree: El = Element::Column(
        Column::new()
            .push(Element::TextInput(input("a")))
            .push(Element::Row(
                Row::new()
                    .push(Element::Image(Image::new("i".to_string())))
                    .push(Element::TextInput(input("b").on_submit(Msg::Submitted))),
            ))
            .push(Element::TextInput(input("c"))),
    );
    let nodes = WidgetNode {
        view_id: None,
        widget_type: WidgetType::Column,
        children: vec![
            leaf(1),
            WidgetNode {
                view_id: None,
                widget_type: WidgetType::Row,
                children: vec![WidgetNode::leaf(None, WidgetType::Image), leaf(2)],
            },
            leaf(1),
        ],
    };
    let mut tree = tree;
    let mut messages = Vec::new();
    tree.on_widget_event(&event(1, "new"), &mut messages, &nodes);
    assert_eq!(messages, vec![Msg::Changed("new".to_string()), Msg::Changed("new".to_string())]);
    let mut messages = Vec::new();
    tree.on_widget_event(&event(2, "b\n"), &mut messages, &nodes);
    assert_eq!(messages, vec![Msg::Submitted]);
    match &tree {
        Element::Column(c) => {
            match &c.children[0] {
                Element::TextInput(t) => assert_eq!(t.value, "new"),
                _ => panic!("first child is a text input"),
            }
            match &c.children[1] {
                Element::Row(r) => match &r.children[1] {
                    Element::TextInput(t) => {
                        assert_eq!(t.value, "b");
                        assert_eq!(t.on_submit, None);
                    }
                    _ => panic!("second child of the row is a text input"),
                },
                _ => panic!("second child is a row"),
            }
        }
        _ => panic!("root is a column"),
    }
}

#[test]
fn dispatch_skips_children_without_nodes() {
    let mut tree: El = Element::Row(
        Row::new().push(Element::TextInput(input("a"))).push(Element::TextInput(input("b"))),
    );
    let nodes = WidgetNode { view_id: None, widget_type: WidgetType::Row, children: vec![leaf(5)] };
    let mut messages = Vec::new();
    tree.on_widget_event(&event(5, "z"), &mut messages, &nodes);
    assert_eq!(messages, vec![Msg::Changed("z".to_string())]);
}
