//! The widget tree: building its layout nodes, hashing its layout-affecting
//! fields and routing native notifications through it.
use vstd::prelude::*;
use crate::column::Column;
use crate::geometry::{Align, Justify, Length};
use crate::hasher::Hasher;
use crate::image::Image;
use crate::layout::{FlexDirection, Node, Style};
use crate::row::Row;
use crate::native::{WidgetEvent, WidgetNode};
use crate::text_input::{fits, Outcome, TextInput};

verus! {

broadcast use vstd::std_specs::vec::group_vec_axioms;

/// An owned widget of any kind.
#[verifier::reject_recursive_types(Message)]
pub enum Element<Message, F: Fn(String) -> Message> {
    Row(Row<Element<Message, F>>),
    Column(Column<Element<Message, F>>),
    Image(Image),
    TextInput(TextInput<Message, F>),
}

/// The margin a container gives its child at `i` of `n`: its spacing after
/// every child but the last.
pub open spec fn spaced_margin(spacing: u16, i: int, n: int) -> Option<u16> {
    if i + 1 < n { Some(spacing) } else { None }
}

/// The style of a row's own node.
pub open spec fn row_style<E>(r: Row<E>) -> Style {
    Style {
        width: Some(r.width),
        height: Some(r.height),
        max_width: Some(r.max_width),
        max_height: Some(r.max_height),
        padding: r.padding,
        align_self: r.align_self,
        align_items: Some(r.align_items),
        justify_content: Some(r.justify_content),
        flex_direction: FlexDirection::Row,
        margin_end: None,
    }
}

/// The style of a column's own node.
pub open spec fn column_style<E>(c: Column<E>) -> Style {
    Style {
        width: Some(c.width),
        height: Some(c.height),
        max_width: Some(c.max_width),
        max_height: Some(c.max_height),
        padding: c.padding,
        align_self: c.align_self,
        align_items: Some(c.align_items),
        justify_content: Some(c.justify_content),
        flex_direction: FlexDirection::Column,
        margin_end: None,
    }
}

/// The style of an image's node.
pub open spec fn image_style(i: Image) -> Style {
    Style {
        width: Some(i.width),
        height: Some(i.height),
        align_self: i.align_self,
        ..Style::spec_default()
    }
}

/// The style of a text input's node.
pub open spec fn text_input_style<M, F: Fn(String) -> M>(t: TextInput<M, F>) -> Style {
    Style { width: Some(t.width), padding: t.padding, ..Style::spec_default() }
}

/// The word a length contributes to a layout hash.
pub open spec fn length_code(l: Length) -> u64 {
    match l {
        Length::Fill => 0,
        Length::FillPortion(p) => (0x10000 + p) as u64,
        Length::Shrink => 0x20000,
        Length::Units(u) => (0x30000 + u) as u64,
    }
}

/// The word an optional alignment contributes to a layout hash.
pub open spec fn align_code(a: Option<Align>) -> u64 {
    match a {
        None => 0,
        Some(Align::Start) => 1,
        Some(Align::Center) => 2,
        Some(Align::End) => 3,
        Some(Align::Stretch) => 4,
    }
}

/// The word a distribution strategy contributes to a layout hash.
pub open spec fn justify_code(j: Justify) -> u64 {
    match j {
        Justify::Start => 0,
        Justify::Center => 1,
        Justify::End => 2,
        Justify::SpaceBetween => 3,
        Justify::SpaceAround => 4,
        Justify::SpaceEvenly => 5,
    }
}

fn length_word(l: Length) -> (r: u64)
    ensures
        r == length_code(l),
{
    match l {
        Length::Fill => 0,
        Length::FillPortion(p) => 0x10000 + p as u64,
        Length::Shrink => 0x20000,
        Length::Units(u) => 0x30000 + u as u64,
    }
}

fn align_word(a: Option<Align>) -> (r: u64)
    ensures
        r == align_code(a),
{
    match a {
        None => 0,
        Some(Align::Start) => 1,
        Some(Align::Center) => 2,
        Some(Align::End) => 3,
        Some(Align::Stretch) => 4,
    }
}

fn justify_word(j: Justify) -> (r: u64)
    ensures
        r == justify_code(j),
{
    match j {
        Justify::Start => 0,
        Justify::Center => 1,
        Justify::End => 2,
        Justify::SpaceBetween => 3,
        Justify::SpaceAround => 4,
        Justify::SpaceEvenly => 5,
    }
}

/// The words a container writes before those of its children: its kind,
/// every layout-affecting field and the number of children.
pub open spec fn container_header(
    kind: u64,
    width: Length,
    height: Length,
    max_width: Length,
    max_height: Length,
    padding: u16,
    align_self: Option<Align>,
    align_items: Align,
    justify_content: Justify,
    spacing: u16,
    n: nat,
) -> Seq<u64> {
    seq![
        kind,
        length_code(width),
        length_code(height),
        length_code(max_width),
        length_code(max_height),
        padding as u64,
        align_code(align_self),
        align_code(Some(align_items)),
        justify_code(justify_content),
        spacing as u64,
        n as u64,
    ]
}

/// The words of the layout hash of a sequence of widgets, one after another.
pub open spec fn seq_words<M, F: Fn(String) -> M>(s: Seq<Element<M, F>>) -> Seq<u64>
    decreases s,
{
    if s.len() == 0 {
        Seq::empty()
    } else {
        seq_words(s.drop_last()) + layout_words(s.last())
    }
}

/// The words of the layout hash of a widget. They are read from the fields
/// that affect layout only: the value, placeholder, path and messages of a
/// widget never enter them.
pub open spec fn layout_words<M, F: Fn(String) -> M>(e: Element<M, F>) -> Seq<u64>
    decreases e,
{
    match e {
        Element::Row(row) => container_header(
            1,
            row.width,
            row.height,
            row.max_width,
            row.max_height,
            row.padding,
            row.align_self,
            row.align_items,
            row.justify_content,
            row.spacing,
            row.children@.len(),
        ) + seq_words(row.children@),
        Element::Column(col) => container_header(
            2,
            col.width,
            col.height,
            col.max_width,
            col.max_height,
            col.padding,
            col.align_self,
            col.align_items,
            col.justify_content,
            col.spacing,
            col.children@.len(),
        ) + seq_words(col.children@),
        Element::Image(im) => seq![
            3,
            length_code(im.width),
            length_code(im.height),
            align_code(im.align_self),
        ],
        Element::TextInput(t) => seq![
            4,
            length_code(t.width),
            t.max_width as u64,
            t.padding as u64,
            match t.size {
                None => 0,
                Some(sz) => (1 + sz) as u64,
            },
        ],
    }
}

/// Whether `ms` are the messages that `outs` stand for, one for one.
pub open spec fn fits_all<M, F: Fn(String) -> M>(ms: Seq<M>, outs: Seq<Outcome<M, F>>) -> bool {
    &&& ms.len() == outs.len()
    &&& forall|k: int| 0 <= k < ms.len() ==> fits(#[trigger] ms[k], outs[k])
}

proof fn lemma_fits_all_append<M, F: Fn(String) -> M>(
    a: Seq<M>,
    b: Seq<M>,
    oa: Seq<Outcome<M, F>>,
    ob: Seq<Outcome<M, F>>,
)
    requires
        fits_all(a, oa),
        fits_all(b, ob),
    ensures
        fits_all(a + b, oa + ob),
{
    assert forall|k: int| 0 <= k < (a + b).len() implies fits(#[trigger] (a + b)[k], (oa + ob)[k]) by {
        if k >= a.len() {
            assert(fits(b[k - a.len()], ob[k - a.len()]));
        }
    }
}

/// What a notification makes the widgets of `s` emit, each paired with the
/// node at its own position in `nodes`, in order.
pub open spec fn seq_outcomes<M, F: Fn(String) -> M>(
    s: Seq<Element<M, F>>,
    nodes: Seq<WidgetNode>,
    event: WidgetEvent,
) -> Seq<Outcome<M, F>>
    decreases s,
{
    if s.len() == 0 {
        Seq::empty()
    } else {
        seq_outcomes(s.drop_last(), nodes, event) + if s.len() - 1 < nodes.len() {
            outcomes(s.last(), nodes[s.len() - 1], event)
        } else {
            Seq::empty()
        }
    }
}

/// What a notification makes a widget tree emit: the outcomes of its text
/// inputs in depth-first pre-order, each widget matched with the node at the
/// same position of the node tree.
pub open spec fn outcomes<M, F: Fn(String) -> M>(
    e: Element<M, F>,
    node: WidgetNode,
    event: WidgetEvent,
) -> Seq<Outcome<M, F>>
    decreases e,
{
    match e {
        Element::Row(row) => seq_outcomes(row.children@, node.children@, event),
        Element::Column(col) => seq_outcomes(col.children@, node.children@, event),
        Element::Image(_) => Seq::empty(),
        Element::TextInput(t) => t.outcomes(event, node),
    }
}

/// Whether two widget trees agree on everything that affects layout: the
/// same kinds at the same positions, with equal sizing, alignment, padding
/// and spacing. Values, placeholders, image paths and messages may differ.
pub open spec fn same_layout<M, F: Fn(String) -> M>(a: Element<M, F>, b: Element<M, F>) -> bool
    decreases a,
{
    match (a, b) {
        (Element::Row(x), Element::Row(y)) => {
            &&& (Row { children: y.children, ..x }) == y
            &&& x.children@.len() == y.children@.len()
            &&& forall|i: int|
                0 <= i < x.children@.len() ==> same_layout(#[trigger] x.children@[i], y.children@[i])
        },
        (Element::Column(x), Element::Column(y)) => {
            &&& (Column { children: y.children, ..x }) == y
            &&& x.children@.len() == y.children@.len()
            &&& forall|i: int|
                0 <= i < x.children@.len() ==> same_layout(#[trigger] x.children@[i], y.children@[i])
        },
        (Element::Image(x), Element::Image(y)) => {
            &&& x.width == y.width
            &&& x.height == y.height
            &&& x.align_self == y.align_self
        },
        (Element::TextInput(x), Element::TextInput(y)) => {
            &&& x.width == y.width
            &&& x.max_width == y.max_width
            &&& x.padding == y.padding
            &&& x.size == y.size
        },
        _ => false,
    }
}

proof fn lemma_seq_words_same_layout<M, F: Fn(String) -> M>(s: Seq<Element<M, F>>, t: Seq<Element<M, F>>)
    requires
        s.len() == t.len(),
        forall|i: int| 0 <= i < s.len() ==> same_layout(#[trigger] s[i], t[i]),
    ensures
        seq_words(s) == seq_words(t),
    decreases s,
{
    if s.len() > 0 {
        lemma_seq_words_same_layout(s.drop_last(), t.drop_last());
        lemma_hash_ignores_content(s.last(), t.last());
    }
}

/// The layout hash reads layout-affecting fields only: two trees that agree
/// on them write the same words, whatever their contents, so they get the
/// same fingerprint.
pub proof fn lemma_hash_ignores_content<M, F: Fn(String) -> M>(a: Element<M, F>, b: Element<M, F>)
    requires
        same_layout(a, b),
    ensures
        layout_words(a) == layout_words(b),
    decreases a,
{
    match (a, b) {
        (Element::Row(x), Element::Row(y)) => {
            lemma_seq_words_same_layout(x.children@, y.children@);
        },
        (Element::Column(x), Element::Column(y)) => {
            lemma_seq_words_same_layout(x.children@, y.children@);
        },
        _ => {},
    }
}

/// Whether every container of the tree holds fewer children than a 64-bit
/// count can number, as every vector on a 64-bit target does.
pub open spec fn bounded<M, F: Fn(String) -> M>(e: Element<M, F>) -> bool
    decreases e,
{
    match e {
        Element::Row(row) => {
            &&& row.children@.len() <= u64::MAX
            &&& forall|i: int| 0 <= i < row.children@.len() ==> bounded(#[trigger] row.children@[i])
        },
        Element::Column(col) => {
            &&& col.children@.len() <= u64::MAX
            &&& forall|i: int| 0 <= i < col.children@.len() ==> bounded(#[trigger] col.children@[i])
        },
        _ => true,
    }
}

proof fn lemma_codes_injective(l1: Length, l2: Length, a1: Option<Align>, a2: Option<Align>, j1: Justify, j2: Justify)
    ensures
        length_code(l1) == length_code(l2) ==> l1 == l2,
        align_code(a1) == align_code(a2) ==> a1 == a2,
        justify_code(j1) == justify_code(j2) ==> j1 == j2,
{
}

proof fn lemma_seq_words_front<M, F: Fn(String) -> M>(s: Seq<Element<M, F>>)
    requires
        s.len() > 0,
    ensures
        seq_words(s) == layout_words(s[0]) + seq_words(s.skip(1)),
    decreases s.len(),
{
    if s.len() == 1 {
        assert(s.drop_last() =~= Seq::<Element<M, F>>::empty());
        assert(s.skip(1) =~= Seq::<Element<M, F>>::empty());
        assert(seq_words(s) =~= layout_words(s[0]) + seq_words(s.skip(1)));
    } else {
        lemma_seq_words_front(s.drop_last());
        assert(s.drop_last().skip(1) =~= s.skip(1).drop_last());
        assert(s.drop_last()[0] == s[0]);
        assert(s.skip(1).last() == s.last());
        assert(seq_words(s) =~= layout_words(s[0]) + seq_words(s.skip(1)));
    }
}

proof fn lemma_seq_words_decode<M, F: Fn(String) -> M>(
    s: Seq<Element<M, F>>,
    t: Seq<Element<M, F>>,
    ra: Seq<u64>,
    rb: Seq<u64>,
)
    requires
        s.len() == t.len(),
        forall|i: int| 0 <= i < s.len() ==> bounded(#[trigger] s[i]),
        forall|i: int| 0 <= i < t.len() ==> bounded(#[trigger] t[i]),
        seq_words(s) + ra == seq_words(t) + rb,
    ensures
        forall|i: int| 0 <= i < s.len() ==> same_layout(#[trigger] s[i], t[i]),
        ra == rb,
    decreases s,
{
    if s.len() == 0 {
        assert(seq_words(s) + ra =~= ra);
        assert(seq_words(t) + rb =~= rb);
    } else {
        lemma_seq_words_front(s);
        lemma_seq_words_front(t);
        let (sa, sb) = (seq_words(s.skip(1)), seq_words(t.skip(1)));
        assert(seq_words(s) + ra =~= layout_words(s[0]) + (sa + ra));
        assert(seq_words(t) + rb =~= layout_words(t[0]) + (sb + rb));
        lemma_words_decode(s[0], t[0], sa + ra, sb + rb);
        lemma_seq_words_decode(s.skip(1), t.skip(1), ra, rb);
        assert forall|i: int| 0 <= i < s.len() implies same_layout(#[trigger] s[i], t[i]) by {
            if i > 0 {
                assert(s.skip(1)[i - 1] == s[i]);
                assert(t.skip(1)[i - 1] == t[i]);
            }
        }
    }
}

proof fn lemma_row_decode<M, F: Fn(String) -> M>(
    x: Row<Element<M, F>>,
    y: Row<Element<M, F>>,
    ra: Seq<u64>,
    rb: Seq<u64>,
)
    requires
        bounded(Element::Row(x)),
        bounded(Element::Row(y)),
        layout_words(Element::Row(x)) + ra == layout_words(Element::Row(y)) + rb,
    ensures
        same_layout(Element::Row(x), Element::Row(y)),
        ra == rb,
    decreases x,
{
    let (a, b) = (Element::<M, F>::Row(x), Element::<M, F>::Row(y));
    let (wa, wb) = (layout_words(a) + ra, layout_words(b) + rb);
    let (hx, hy) = (container_header(1, x.width, x.height, x.max_width, x.max_height, x.padding, x.align_self, x.align_items, x.justify_content, x.spacing, x.children@.len()), container_header(1, y.width, y.height, y.max_width, y.max_height, y.padding, y.align_self, y.align_items, y.justify_content, y.spacing, y.children@.len()));
    assert(wa.take(11) =~= hx);
    assert(wb.take(11) =~= hy);
    assert(hx == hy);
    assert(hx[1] == hy[1] && hx[2] == hy[2] && hx[3] == hy[3] && hx[4] == hy[4]);
    assert(hx[5] == hy[5] && hx[6] == hy[6] && hx[7] == hy[7] && hx[8] == hy[8]);
    assert(hx[9] == hy[9] && hx[10] == hy[10]);
    lemma_codes_injective(x.width, y.width, x.align_self, y.align_self, x.justify_content, y.justify_content);
    lemma_codes_injective(x.height, y.height, Some(x.align_items), Some(y.align_items), x.justify_content, y.justify_content);
    lemma_codes_injective(x.max_width, y.max_width, None, None, x.justify_content, y.justify_content);
    lemma_codes_injective(x.max_height, y.max_height, None, None, x.justify_content, y.justify_content);
    assert(x.children@.len() <= u64::MAX && y.children@.len() <= u64::MAX);
    assert(x.children@.len() == y.children@.len());
    assert(wa.skip(11) =~= seq_words(x.children@) + ra);
    assert(wb.skip(11) =~= seq_words(y.children@) + rb);
    assert(decreases_to!(x => x.children));
    assert(decreases_to!(x.children => x.children@));
    lemma_seq_words_decode(x.children@, y.children@, ra, rb);
    assert((Row { children: y.children, ..x }) == y);
}

proof fn lemma_column_decode<M, F: Fn(String) -> M>(
    x: Column<Element<M, F>>,
    y: Column<Element<M, F>>,
    ra: Seq<u64>,
    rb: Seq<u64>,
)
    requires
        bounded(Element::Column(x)),
        bounded(Element::Column(y)),
        layout_words(Element::Column(x)) + ra == layout_words(Element::Column(y)) + rb,
    ensures
        same_layout(Element::Column(x), Element::Column(y)),
        ra == rb,
    decreases x,
{
    let (a, b) = (Element::<M, F>::Column(x), Element::<M, F>::Column(y));
    let (wa, wb) = (layout_words(a) + ra, layout_words(b) + rb);
    let (hx, hy) = (container_header(2, x.width, x.height, x.max_width, x.max_height, x.padding, x.align_self, x.align_items, x.justify_content, x.spacing, x.children@.len()), container_header(2, y.width, y.height, y.max_width, y.max_height, y.padding, y.align_self, y.align_items, y.justify_content, y.spacing, y.children@.len()));
    assert(wa.take(11) =~= hx);
    assert(wb.take(11) =~= hy);
    assert(hx == hy);
    assert(hx[1] == hy[1] && hx[2] == hy[2] && hx[3] == hy[3] && hx[4] == hy[4]);
    assert(hx[5] == hy[5] && hx[6] == hy[6] && hx[7] == hy[7] && hx[8] == hy[8]);
    assert(hx[9] == hy[9] && hx[10] == hy[10]);
    lemma_codes_injective(x.width, y.width, x.align_self, y.align_self, x.justify_content, y.justify_content);
    lemma_codes_injective(x.height, y.height, Some(x.align_items), Some(y.align_items), x.justify_content, y.justify_content);
    lemma_codes_injective(x.max_width, y.max_width, None, None, x.justify_content, y.justify_content);
    lemma_codes_injective(x.max_height, y.max_height, None, None, x.justify_content, y.justify_content);
    assert(x.children@.len() <= u64::MAX && y.children@.len() <= u64::MAX);
    assert(x.children@.len() == y.children@.len());
    assert(wa.skip(11) =~= seq_words(x.children@) + ra);
    assert(wb.skip(11) =~= seq_words(y.children@) + rb);
    assert(decreases_to!(x => x.children));
    assert(decreases_to!(x.children => x.children@));
    lemma_seq_words_decode(x.children@, y.children@, ra, rb);
    assert((Column { children: y.children, ..x }) == y);
}

/// The word a widget's layout hash starts with: its kind.
pub open spec fn kind_code<M, F: Fn(String) -> M>(e: Element<M, F>) -> u64 {
    match e {
        Element::Row(_) => 1,
        Element::Column(_) => 2,
        Element::Image(_) => 3,
        Element::TextInput(_) => 4,
    }
}

proof fn lemma_words_decode<M, F: Fn(String) -> M>(
    a: Element<M, F>,
    b: Element<M, F>,
    ra: Seq<u64>,
    rb: Seq<u64>,
)
    requires
        bounded(a),
        bounded(b),
        layout_words(a) + ra == layout_words(b) + rb,
    ensures
        same_layout(a, b),
        ra == rb,
    decreases a,
{
    let (wa, wb) = (layout_words(a) + ra, layout_words(b) + rb);
    assert(layout_words(a).len() > 0 && layout_words(a)[0] == kind_code(a));
    assert(layout_words(b).len() > 0 && layout_words(b)[0] == kind_code(b));
    assert(wa[0] == wb[0]);
    match a {
        Element::Row(x) => {
            lemma_row_decode(x, b->Row_0, ra, rb);
        },
        Element::Column(x) => {
            lemma_column_decode(x, b->Column_0, ra, rb);
        },
        Element::Image(x) => {
            let y = b->Image_0;
            assert forall|k: int| 1 <= k < 4 implies layout_words(a)[k] == layout_words(b)[k] by {
                assert(wa[k] == wb[k]);
            }
            lemma_codes_injective(x.width, y.width, x.align_self, y.align_self, Justify::Start, Justify::Start);
            lemma_codes_injective(x.height, y.height, None, None, Justify::Start, Justify::Start);
            assert(wa.skip(4) =~= ra);
            assert(wb.skip(4) =~= rb);
        },
        Element::TextInput(x) => {
            let y = b->TextInput_0;
            assert forall|k: int| 1 <= k < 5 implies layout_words(a)[k] == layout_words(b)[k] by {
                assert(wa[k] == wb[k]);
            }
            lemma_codes_injective(x.width, y.width, None, None, Justify::Start, Justify::Start);
            assert(wa.skip(5) =~= ra);
            assert(wb.skip(5) =~= rb);
        },
    }
}

/// Two trees write the same layout hash words exactly when they agree on
/// every layout-affecting field: a change of any width, height, maximum
/// size, padding, spacing, alignment, distribution, widget kind, child count
/// or child order changes the words, and a change of content does not.
pub proof fn lemma_hash_layout_exact<M, F: Fn(String) -> M>(a: Element<M, F>, b: Element<M, F>)
    requires
        bounded(a),
        bounded(b),
    ensures
        layout_words(a) == layout_words(b) <==> same_layout(a, b),
{
    if layout_words(a) == layout_words(b) {
        assert(layout_words(a) + Seq::<u64>::empty() =~= layout_words(b) + Seq::<u64>::empty());
        lemma_words_decode(a, b, Seq::empty(), Seq::empty());
    }
    if same_layout(a, b) {
        lemma_hash_ignores_content(a, b);
    }
}

/// A container's node has one child node per child widget, in the same
/// order, each built from that widget; the spacing is the trailing margin of
/// every child node but the last, and a container with at most one child
/// has no margin on any child.
pub proof fn lemma_node_children_spacing<M, F: Fn(String) -> M>(e: Element<M, F>, n: Node, margin: Option<u16>)
    requires
        e.builds(n, margin),
    ensures
        n.children@.len() == e.children().len(),
        forall|i: int|
            0 <= i < n.children@.len() ==> e.children()[i].builds(
                #[trigger] n.children@[i],
                spaced_margin(e.spacing(), i, n.children@.len() as int),
            ),
        forall|i: int|
            0 <= i < n.children@.len() - 1 ==> (#[trigger] n.children@[i]).style.margin_end == Some(e.spacing()),
        n.children@.len() > 0 ==> n.children@.last().style.margin_end == None::<u16>,
        n.children@.len() <= 1 ==> forall|i: int|
            0 <= i < n.children@.len() ==> (#[trigger] n.children@[i]).style.margin_end == None::<u16>,
{
    let len = n.children@.len() as int;
    assert forall|i: int| 0 <= i < len implies e.children()[i].builds(
        #[trigger] n.children@[i],
        spaced_margin(e.spacing(), i, len),
    ) by {
        match e {
            Element::Row(row) => {},
            Element::Column(col) => {},
            _ => {},
        }
    }
    assert forall|i: int| 0 <= i < len implies (#[trigger] n.children@[i]).style.margin_end == spaced_margin(
        e.spacing(),
        i,
        len,
    ) by {
        assert(e.children()[i].builds(n.children@[i], spaced_margin(e.spacing(), i, len)));
    }
    if len > 0 {
        assert(n.children@.last() == n.children@[len - 1]);
    }
}

impl<Message, F: Fn(String) -> Message> Element<Message, F> {
    /// The style of the widget's own node, before its parent sets a margin.
    pub open spec fn own_style(self) -> Style {
        match self {
            Element::Row(r) => row_style(r),
            Element::Column(c) => column_style(c),
            Element::Image(i) => image_style(i),
            Element::TextInput(t) => text_input_style(t),
        }
    }

    /// The children of a container; a leaf has none.
    pub open spec fn children(self) -> Seq<Element<Message, F>> {
        match self {
            Element::Row(r) => r.children@,
            Element::Column(c) => c.children@,
            _ => Seq::empty(),
        }
    }

    /// The spacing a container puts between its children.
    pub open spec fn spacing(self) -> u16 {
        match self {
            Element::Row(r) => r.spacing,
            Element::Column(c) => c.spacing,
            _ => 0,
        }
    }

    /// Whether `n` is the layout node built from this widget, with
    /// `margin` set by its parent: its own style, and one node per child,
    /// in order, each carrying the spacing unless it is the last.
    pub open spec fn builds(self, n: Node, margin: Option<u16>) -> bool
        decreases self,
    {
        &&& n.style == Style { margin_end: margin, ..self.own_style() }
        &&& n.children@.len() == self.children().len()
        &&& match self {
            Element::Row(row) => forall|i: int|
                0 <= i < row.children@.len() ==> row.children@[i].builds(
                    #[trigger] n.children@[i],
                    spaced_margin(row.spacing, i, row.children@.len() as int),
                ),
            Element::Column(col) => forall|i: int|
                0 <= i < col.children@.len() ==> col.children@[i].builds(
                    #[trigger] n.children@[i],
                    spaced_margin(col.spacing, i, col.children@.len() as int),
                ),
            _ => true,
        }
    }
    /// Whether every text input of the tree accepts every value.
    pub open spec fn wf(self) -> bool
        decreases self,
    {
        match self {
            Element::Row(row) => forall|i: int|
                0 <= i < row.children@.len() ==> (#[trigger] row.children@[i]).wf(),
            Element::Column(col) => forall|i: int|
                0 <= i < col.children@.len() ==> (#[trigger] col.children@[i]).wf(),
            Element::Image(_) => true,
            Element::TextInput(t) => t.wf(),
        }
    }

    /// Whether `new` is this tree after a notification routed through
    /// `node`: each text input with a node changed as its own handling says,
    /// everything else as it was.
    pub open spec fn updated(self, new: Self, node: WidgetNode, event: WidgetEvent) -> bool
        decreases self,
    {
        match self {
            Element::Row(row) => match new {
                Element::Row(nrow) => {
                    &&& nrow == (Row { children: nrow.children, ..row })
                    &&& nrow.children@.len() == row.children@.len()
                    &&& forall|i: int|
                        0 <= i < row.children@.len() ==> if i < node.children@.len() {
                            row.children@[i].updated(#[trigger] nrow.children@[i], node.children@[i], event)
                        } else {
                            nrow.children@[i] == row.children@[i]
                        }
                },
                _ => false,
            },
            Element::Column(col) => match new {
                Element::Column(ncol) => {
                    &&& ncol == (Column { children: ncol.children, ..col })
                    &&& ncol.children@.len() == col.children@.len()
                    &&& forall|i: int|
                        0 <= i < col.children@.len() ==> if i < node.children@.len() {
                            col.children@[i].updated(#[trigger] ncol.children@[i], node.children@[i], event)
                        } else {
                            ncol.children@[i] == col.children@[i]
                        }
                },
                _ => false,
            },
            Element::Image(_) => new == self,
            Element::TextInput(t) => match new {
                Element::TextInput(nt) => t.after(nt, event, node),
                _ => false,
            },
        }
    }

    /// Builds the layout node of this widget: a leaf's node from its sizing
    /// fields, a container's from its own style and the nodes of its
    /// children, in order, with the spacing as trailing margin on every
    /// child but the last.
    pub fn node(&self) -> (r: Node)
        ensures
            self.builds(r, None),
        decreases self,
    {
        match self {
            Element::Row(c) => {
                let n = c.children.len();
                let mut kids: Vec<Node> = Vec::new();
                let mut i: usize = 0;
                while i < n
                    invariant
                        *self == Element::Row(*c),
                        n == c.children@.len(),
                        i <= n,
                        kids@.len() == i,
                        forall|j: int| 0 <= j < i ==> #[trigger] c.children@[j].builds(
                            kids@[j],
                            spaced_margin(c.spacing, j, n as int),
                        ),
                    decreases n - i,
                {
                    proof {
                        let e = *self;
                        assert(e is Row && e->Row_0 == *c);
                        assert(decreases_to!(e => e->Row_0));
                        assert(decreases_to!(e->Row_0 => e->Row_0.children));
                        assert(decreases_to!(c.children => c.children@));
                        assert(decreases_to!(c.children@ => c.children@[i as int]));
                    }
                    let mut child = c.children[i].node();
                    child.style.margin_end = if i + 1 < n { Some(c.spacing) } else { None };
                    kids.push(child);
                    i += 1;
                }
                let style = Style {
                    width: Some(c.width),
                    height: Some(c.height),
                    max_width: Some(c.max_width),
                    max_height: Some(c.max_height),
                    padding: c.padding,
                    align_self: c.align_self,
                    align_items: Some(c.align_items),
                    justify_content: Some(c.justify_content),
                    flex_direction: FlexDirection::Row,
                    margin_end: None,
                };
                let built = Node::with_children(style, kids);
                proof {
                    assert(built.children@ == kids@);
                    assert(forall|j: int| 0 <= j < n ==> c.children@[j].builds(
                        #[trigger] built.children@[j],
                        spaced_margin(c.spacing, j, n as int),
                    ));
                }
                built
            },
            Element::Column(c) => {
                let n = c.children.len();
                let mut kids: Vec<Node> = Vec::new();
                let mut i: usize = 0;
                while i < n
                    invariant
                        *self == Element::Column(*c),
                        n == c.children@.len(),
                        i <= n,
                        kids@.len() == i,
                        forall|j: int| 0 <= j < i ==> #[trigger] c.children@[j].builds(
                            kids@[j],
                            spaced_margin(c.spacing, j, n as int),
                        ),
                    decreases n - i,
                {
                    proof {
                        let e = *self;
                        assert(e is Column && e->Column_0 == *c);
                        assert(decreases_to!(e => e->Column_0));
                        assert(decreases_to!(e->Column_0 => e->Column_0.children));
                        assert(decreases_to!(c.children => c.children@));
                        assert(decreases_to!(c.children@ => c.children@[i as int]));
                    }
                    let mut child = c.children[i].node();
                    child.style.margin_end = if i + 1 < n { Some(c.spacing) } else { None };
                    kids.push(child);
                    i += 1;
                }
                let style = Style {
                    width: Some(c.width),
                    height: Some(c.height),
                    max_width: Some(c.max_width),
                    max_height: Some(c.max_height),
                    padding: c.padding,
                    align_self: c.align_self,
                    align_items: Some(c.align_items),
                    justify_content: Some(c.justify_content),
                    flex_direction: FlexDirection::Column,
                    margin_end: None,
                };
                let built = Node::with_children(style, kids);
                proof {
                    assert(built.children@ == kids@);
                    assert(forall|j: int| 0 <= j < n ==> c.children@[j].builds(
                        #[trigger] built.children@[j],
                        spaced_margin(c.spacing, j, n as int),
                    ));
                }
                built
            },
            Element::Image(im) => {
                let mut style = Style::empty();
                style.width = Some(im.width);
                style.height = Some(im.height);
                style.align_self = im.align_self;
                let built = Node::new(style);
                assert(self.builds(built, None));
                built
            },
            Element::TextInput(t) => {
                let mut style = Style::empty();
                style.width = Some(t.width);
                style.padding = t.padding;
                let built = Node::new(style);
                assert(self.builds(built, None));
                built
            },
        }
    }
    /// Writes the layout hash words of this widget: for a container its kind,
    /// its layout-affecting fields and the number of its children, then
    /// those of each child in order; for a leaf its kind and sizing fields.
    pub fn hash_layout(&self, state: &mut Hasher)
        ensures
            final(state)@ == old(state)@ + layout_words(*self),
        decreases self,
    {
        let ghost s0 = state@;
        match self {
            Element::Row(c) => {
                let n = c.children.len();
                state.write(1);
                state.write(length_word(c.width));
                state.write(length_word(c.height));
                state.write(length_word(c.max_width));
                state.write(length_word(c.max_height));
                state.write(c.padding as u64);
                state.write(align_word(c.align_self));
                state.write(align_word(Some(c.align_items)));
                state.write(justify_word(c.justify_content));
                state.write(c.spacing as u64);
                state.write(n as u64);
                let ghost head = state@;
                assert(head == s0 + container_header(
                    1,
                    c.width,
                    c.height,
                    c.max_width,
                    c.max_height,
                    c.padding,
                    c.align_self,
                    c.align_items,
                    c.justify_content,
                    c.spacing,
                    n as nat,
                ));
                let mut i: usize = 0;
                while i < n
                    invariant
                        *self == Element::Row(*c),
                        n == c.children@.len(),
                        i <= n,
                        state@ == head + seq_words(c.children@.subrange(0, i as int)),
                    decreases n - i,
                {
                    proof {
                        let e = *self;
                        assert(e->Row_0 == *c);
                        assert(decreases_to!(e => e->Row_0));
                        assert(decreases_to!(e->Row_0 => e->Row_0.children));
                        assert(decreases_to!(c.children => c.children@));
                        assert(decreases_to!(c.children@ => c.children@[i as int]));
                    }
                    c.children[i].hash_layout(state);
                    proof {
                        let next = c.children@.subrange(0, i + 1);
                        assert(next.drop_last() =~= c.children@.subrange(0, i as int));
                        assert(next.last() == c.children@[i as int]);
                        assert(state@ =~= head + seq_words(next));
                    }
                    i += 1;
                }
                assert(c.children@.subrange(0, n as int) =~= c.children@);
            },
            Element::Column(c) => {
                let n = c.children.len();
                state.write(2);
                state.write(length_word(c.width));
                state.write(length_word(c.height));
                state.write(length_word(c.max_width));
                state.write(length_word(c.max_height));
                state.write(c.padding as u64);
                state.write(align_word(c.align_self));
                state.write(align_word(Some(c.align_items)));
                state.write(justify_word(c.justify_content));
                state.write(c.spacing as u64);
                state.write(n as u64);
                let ghost head = state@;
                assert(head == s0 + container_header(
                    2,
                    c.width,
                    c.height,
                    c.max_width,
                    c.max_height,
                    c.padding,
                    c.align_self,
                    c.align_items,
                    c.justify_content,
                    c.spacing,
                    n as nat,
                ));
                let mut i: usize = 0;
                while i < n
                    invariant
                        *self == Element::Column(*c),
                        n == c.children@.len(),
                        i <= n,
                        state@ == head + seq_words(c.children@.subrange(0, i as int)),
                    decreases n - i,
                {
                    proof {
                        let e = *self;
                        assert(e->Column_0 == *c);
                        assert(decreases_to!(e => e->Column_0));
                        assert(decreases_to!(e->Column_0 => e->Column_0.children));
                        assert(decreases_to!(c.children => c.children@));
                        assert(decreases_to!(c.children@ => c.children@[i as int]));
                    }
                    c.children[i].hash_layout(state);
                    proof {
                        let next = c.children@.subrange(0, i + 1);
                        assert(next.drop_last() =~= c.children@.subrange(0, i as int));
                        assert(next.last() == c.children@[i as int]);
                        assert(state@ =~= head + seq_words(next));
                    }
                    i += 1;
                }
                assert(c.children@.subrange(0, n as int) =~= c.children@);
            },
            Element::Image(im) => {
                state.write(3);
                state.write(length_word(im.width));
                state.write(length_word(im.height));
                state.write(align_word(im.align_self));
                assert(state@ =~= s0 + layout_words(*self));
            },
            Element::TextInput(t) => {
                state.write(4);
                state.write(length_word(t.width));
                state.write(t.max_width as u64);
                state.write(t.padding as u64);
                let size_word: u64 = match t.size {
                    None => 0,
                    Some(sz) => 1 + sz as u64,
                };
                state.write(size_word);
                assert(state@ =~= s0 + layout_words(*self));
            },
        }
    }
    /// Routes a native notification through the tree: each widget is paired
    /// with the node at the same position of `widget_node`'s tree and every
    /// child is visited, in order, whatever its siblings emitted; text inputs
    /// handle the notification as their own method says.
    pub fn on_widget_event(&mut self, event: &WidgetEvent, messages: &mut Vec<Message>, widget_node: &WidgetNode)
        requires
            old(self).wf(),
        ensures
            old(self).updated(*final(self), *widget_node, *event),
            final(messages)@.subrange(0, old(messages)@.len() as int) == old(messages)@,
            old(messages)@.len() <= final(messages)@.len(),
            fits_all(
                final(messages)@.subrange(old(messages)@.len() as int, final(messages)@.len() as int),
                outcomes(*old(self), *widget_node, *event),
            ),
        decreases *old(self),
    {
        let ghost m0 = messages@;
        match self {
            Element::Row(c) => {
                let n = c.children.len();
                let m = if n < widget_node.children.len() { n } else { widget_node.children.len() };
                let ghost orig = *c;
                let mut i: usize = 0;
                while i < n
                    invariant
                        *old(self) == Element::Row(orig),
                        n == c.children@.len(),
                        n == orig.children@.len(),
                        m == if n < widget_node.children@.len() { n as int } else { widget_node.children@.len() as int },
                        i <= n,
                        *c == (Row { children: c.children, ..orig }),
                        forall|j: int| i <= j < n ==> c.children@[j] == orig.children@[j],
                        forall|j: int| 0 <= j < i ==> if j < widget_node.children@.len() {
                            orig.children@[j].updated(#[trigger] c.children@[j], widget_node.children@[j], *event)
                        } else {
                            c.children@[j] == orig.children@[j]
                        },
                        forall|j: int| 0 <= j < n ==> (#[trigger] orig.children@[j]).wf(),
                        messages@.subrange(0, m0.len() as int) == m0,
                        m0.len() <= messages@.len(),
                        fits_all(
                            messages@.subrange(m0.len() as int, messages@.len() as int),
                            seq_outcomes(orig.children@.subrange(0, i as int), widget_node.children@, *event),
                        ),
                    decreases n - i,
                {
                    let ghost before = messages@;
                    let ghost sub = orig.children@.subrange(0, i + 1);
                    proof {
                        let e = *old(self);
                        assert(e->Row_0 == orig);
                        assert(decreases_to!(e => e->Row_0));
                        assert(decreases_to!(e->Row_0 => e->Row_0.children));
                        assert(decreases_to!(orig.children => orig.children@));
                        assert(decreases_to!(orig.children@ => orig.children@[i as int]));
                        assert(sub.drop_last() =~= orig.children@.subrange(0, i as int));
                        assert(sub.last() == orig.children@[i as int]);
                    }
                    if i < m {
                        c.children[i].on_widget_event(event, messages, &widget_node.children[i]);
                        proof {
                            lemma_fits_all_append(
                                before.subrange(m0.len() as int, before.len() as int),
                                messages@.subrange(before.len() as int, messages@.len() as int),
                                seq_outcomes(orig.children@.subrange(0, i as int), widget_node.children@, *event),
                                outcomes(orig.children@[i as int], widget_node.children@[i as int], *event),
                            );
                            assert(messages@.subrange(m0.len() as int, messages@.len() as int) =~=
                                before.subrange(m0.len() as int, before.len() as int)
                                + messages@.subrange(before.len() as int, messages@.len() as int));
                            assert(messages@.subrange(0, m0.len() as int) =~= before.subrange(0, m0.len() as int));
                        }
                    } else {
                        proof {
                            assert(seq_outcomes(sub, widget_node.children@, *event)
                                =~= seq_outcomes(orig.children@.subrange(0, i as int), widget_node.children@, *event));
                        }
                    }
                    i += 1;
                }
                proof {
                    assert(orig.children@.subrange(0, n as int) =~= orig.children@);
                }
            },
            Element::Column(c) => {
                let n = c.children.len();
                let m = if n < widget_node.children.len() { n } else { widget_node.children.len() };
                let ghost orig = *c;
                let mut i: usize = 0;
                while i < n
                    invariant
                        *old(self) == Element::Column(orig),
                        n == c.children@.len(),
                        n == orig.children@.len(),
                        m == if n < widget_node.children@.len() { n as int } else { widget_node.children@.len() as int },
                        i <= n,
                        *c == (Column { children: c.children, ..orig }),
                        forall|j: int| i <= j < n ==> c.children@[j] == orig.children@[j],
                        forall|j: int| 0 <= j < i ==> if j < widget_node.children@.len() {
                            orig.children@[j].updated(#[trigger] c.children@[j], widget_node.children@[j], *event)
                        } else {
                            c.children@[j] == orig.children@[j]
                        },
                        forall|j: int| 0 <= j < n ==> (#[trigger] orig.children@[j]).wf(),
                        messages@.subrange(0, m0.len() as int) == m0,
                        m0.len() <= messages@.len(),
                        fits_all(
                            messages@.subrange(m0.len() as int, messages@.len() as int),
                            seq_outcomes(orig.children@.subrange(0, i as int), widget_node.children@, *event),
                        ),
                    decreases n - i,
                {
                    let ghost before = messages@;
                    let ghost sub = orig.children@.subrange(0, i + 1);
                    proof {
                        let e = *old(self);
                        assert(e->Column_0 == orig);
                        assert(decreases_to!(e => e->Column_0));
                        assert(decreases_to!(e->Column_0 => e->Column_0.children));
                        assert(decreases_to!(orig.children => orig.children@));
                        assert(decreases_to!(orig.children@ => orig.children@[i as int]));
                        assert(sub.drop_last() =~= orig.children@.subrange(0, i as int));
                        assert(sub.last() == orig.children@[i as int]);
                    }
                    if i < m {
                        c.children[i].on_widget_event(event, messages, &widget_node.children[i]);
                        proof {
                            lemma_fits_all_append(
                                before.subrange(m0.len() as int, before.len() as int),
                                messages@.subrange(before.len() as int, messages@.len() as int),
                                seq_outcomes(orig.children@.subrange(0, i as int), widget_node.children@, *event),
                                outcomes(orig.children@[i as int], widget_node.children@[i as int], *event),
                            );
                            assert(messages@.subrange(m0.len() as int, messages@.len() as int) =~=
                                before.subrange(m0.len() as int, before.len() as int)
                                + messages@.subrange(before.len() as int, messages@.len() as int));
                            assert(messages@.subrange(0, m0.len() as int) =~= before.subrange(0, m0.len() as int));
                        }
                    } else {
                        proof {
                            assert(seq_outcomes(sub, widget_node.children@, *event)
                                =~= seq_outcomes(orig.children@.subrange(0, i as int), widget_node.children@, *event));
                        }
                    }
                    i += 1;
                }
                proof {
                    assert(orig.children@.subrange(0, n as int) =~= orig.children@);
                }
            },
            Element::Image(_) => {
                assert(messages@.subrange(0, m0.len() as int) =~= m0);
                assert(messages@.subrange(m0.len() as int, messages@.len() as int) =~= Seq::<Message>::empty());
            },
            Element::TextInput(t) => {
                t.on_widget_event(event, messages, widget_node);
                proof {
                    let outs = outcomes(*old(self), *widget_node, *event);
                    let tail = messages@.subrange(m0.len() as int, messages@.len() as int);
                    assert forall|k: int| 0 <= k < tail.len() implies fits(#[trigger] tail[k], outs[k]) by {
                        assert(tail[k] == messages@[m0.len() + k]);
                    }
                }
            },
        }
    }
}

} // verus!
