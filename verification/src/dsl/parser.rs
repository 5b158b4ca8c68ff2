//! The tree decoder: from the untyped payload of a script evaluation to the
//! typed component tree.
//!
//! A payload is a sequence of nodes. A node is an object with a `type` tag,
//! an `id`, an optional `props` object and an optional `children` array of
//! further nodes. Decoding is all or nothing: the first node that cannot be
//! decoded, in document order with children before their parent, fails the
//! whole payload.

use vstd::prelude::*;
use crate::json::{
    items_view, json_text_value, lemma_items_view, lemma_lookup_decreases, lemma_members_view,
    member_lookup, members_view, number_or, parse_json, Json, JsonView, Member, MemberView, Number,
};
use crate::text::{string_is, text_or};
use crate::ui::components::{
    components_view, ButtonProps, ButtonPropsView, CameraProps, CameraPropsView, CanvasProps,
    CanvasPropsView, ColumnProps, ColumnPropsView, ComponentView, Entry, EntryView, GridProps,
    GridPropsView, ImageProps, ImagePropsView, InputProps, InputPropsView, ListProps,
    ListPropsView, RowProps, RowPropsView, SVGProps, SVGPropsView, ScrollViewProps,
    ScrollViewPropsView, StackProps, StackPropsView, TextProps, TextPropsView, UIComponent,
    Viewport3DProps, Viewport3DPropsView, WindowProps, WindowPropsView,
};

verus! {

/// Why a payload could not be decoded.
#[derive(Debug, Clone, PartialEq, Eq)]
pub enum DecodeError {
    /// A node's `type` is none of the fourteen kinds; a node without a
    /// string `type` reports the empty tag.
    UnknownType(String),
    /// A node has no `id`, or its `id` is no string or is empty.
    MissingId,
    /// The payload is not shaped as the wire format asks: the text is not a
    /// JSON array, or a node's `props` is neither absent, null nor an object.
    MalformedProps,
}

/// Mathematical view of a [`DecodeError`].
pub enum DecodeErrorView {
    UnknownType(Seq<char>),
    MissingId,
    MalformedProps,
}

impl View for DecodeError {
    type V = DecodeErrorView;

    open spec fn view(&self) -> DecodeErrorView {
        match self {
            DecodeError::UnknownType(tag) => DecodeErrorView::UnknownType(tag@),
            DecodeError::MissingId => DecodeErrorView::MissingId,
            DecodeError::MalformedProps => DecodeErrorView::MalformedProps,
        }
    }
}

/// Default width of a window.
pub const WINDOW_WIDTH: u64 = 400;

/// Default height of a window.
pub const WINDOW_HEIGHT: u64 = 300;

/// Default width and height of a canvas and of a scroll view.
pub const PANEL_SIZE: u64 = 200;

/// Default width and height of a 3D viewport.
pub const VIEWPORT_SIZE: u64 = 300;

/// Default number of columns of a grid.
pub const GRID_COLUMNS: usize = 2;

/// The member `key` of the properties object, if there is such an object
/// and it has the member.
pub open spec fn prop(props: Option<JsonView>, key: Seq<char>) -> Option<JsonView> {
    match props {
        Some(p) => p.get(key),
        None => None,
    }
}

/// A string property; a member of another type counts as absent.
pub open spec fn prop_str(props: Option<JsonView>, key: Seq<char>) -> Option<Seq<char>> {
    match prop(props, key) {
        Some(v) => v.str_value(),
        None => None,
    }
}

/// A numeric property; a member of another type counts as absent.
pub open spec fn prop_number(props: Option<JsonView>, key: Seq<char>) -> Option<Number> {
    match prop(props, key) {
        Some(v) => v.number_value(),
        None => None,
    }
}

/// A boolean property; a member of another type counts as absent.
pub open spec fn prop_bool(props: Option<JsonView>, key: Seq<char>) -> Option<bool> {
    match prop(props, key) {
        Some(v) => v.bool_value(),
        None => None,
    }
}

/// A count property: an unsigned integer, held to what the platform can
/// count. A member of another type counts as absent.
pub open spec fn prop_count(props: Option<JsonView>, key: Seq<char>) -> Option<usize> {
    match prop(props, key) {
        Some(v) => match v.u64_value() {
            Some(n) => Some(clamp_count(n)),
            None => None,
        },
        None => None,
    }
}

/// `n` as a `usize`, or the largest `usize` where `n` does not fit.
pub open spec fn clamp_count(n: u64) -> usize {
    if n <= usize::MAX {
        n as usize
    } else {
        usize::MAX
    }
}

/// The style sheet that the string-valued entries of `members` spell out. A
/// later entry replaces the value of an earlier one with the same key.
pub open spec fn style_of(members: Seq<MemberView>) -> Seq<EntryView>
    decreases members.len(),
{
    if members.len() == 0 {
        Seq::empty()
    } else {
        let before = style_of(members.drop_last());
        match members.last().value {
            JsonView::Str(s) => style_put(before, members.last().key, s),
            _ => before,
        }
    }
}

/// `entries` with `key` bound to `value`: the first entry with the key gets
/// the value, and without such an entry a new one is appended.
pub open spec fn style_put(entries: Seq<EntryView>, key: Seq<char>, value: Seq<char>) -> Seq<
    EntryView,
>
    decreases entries.len(),
{
    if entries.len() == 0 {
        seq![EntryView { key, value }]
    } else if entries[0].key == key {
        entries.update(0, EntryView { key, value })
    } else {
        seq![entries[0]] + style_put(entries.drop_first(), key, value)
    }
}

/// The style of a button: the string-valued entries of its `style` object,
/// empty where `style` is absent or no object.
pub open spec fn button_style(props: Option<JsonView>) -> Seq<EntryView> {
    match prop(props, "style"@) {
        Some(JsonView::Object(members)) => style_of(members),
        _ => Seq::empty(),
    }
}

/// One coordinate of a camera vector: item `index` of `items` where it is a
/// number, else `default`.
pub open spec fn coordinate(items: Seq<JsonView>, index: int, default: u64) -> Number {
    number_or(items[index].number_value(), default)
}

/// A camera vector: the first three items of the array `key` of `camera`,
/// each with its own default, or the three defaults where `key` is absent,
/// no array, or shorter than three.
pub open spec fn camera_vector(camera: JsonView, key: Seq<char>, d0: u64, d1: u64, d2: u64) -> Seq<
    Number,
> {
    match camera.get(key) {
        Some(JsonView::Array(items)) => if items.len() >= 3 {
            seq![coordinate(items, 0, d0), coordinate(items, 1, d1), coordinate(items, 2, d2)]
        } else {
            seq![Number::PosInt(d0), Number::PosInt(d1), Number::PosInt(d2)]
        },
        _ => seq![Number::PosInt(d0), Number::PosInt(d1), Number::PosInt(d2)],
    }
}

/// The camera of a viewport: absent where the properties have no `camera`
/// member, else position and target read from it, defaulting to
/// `(0, 5, 10)` and `(0, 0, 0)`.
pub open spec fn camera_of(props: Option<JsonView>) -> Option<CameraPropsView> {
    match prop(props, "camera"@) {
        Some(camera) => Some(
            CameraPropsView {
                position: camera_vector(camera, "position"@, 0, 5, 10),
                target: camera_vector(camera, "target"@, 0, 0, 0),
            },
        ),
        None => None,
    }
}

/// Whether `tag` names one of the fourteen kinds.
pub open spec fn known_tag(tag: Seq<char>) -> bool {
    ||| tag == "window"@
    ||| tag == "button"@
    ||| tag == "text"@
    ||| tag == "image"@
    ||| tag == "canvas"@
    ||| tag == "svg"@
    ||| tag == "scrollview"@
    ||| tag == "list"@
    ||| tag == "grid"@
    ||| tag == "input"@
    ||| tag == "viewport3d"@
    ||| tag == "stack"@
    ||| tag == "row"@
    ||| tag == "column"@
}

/// The component of kind `tag` with the given id, properties and decoded
/// children. Every property has a default; a leaf kind drops the children.
pub open spec fn assemble(
    tag: Seq<char>,
    id: Seq<char>,
    props: Option<JsonView>,
    children: Seq<ComponentView>,
) -> ComponentView
    recommends
        known_tag(tag),
{
    if tag == "window"@ {
        ComponentView::Window(
            WindowPropsView {
                id,
                title: text_or(prop_str(props, "title"@), "Window"@),
                width: number_or(prop_number(props, "width"@), WINDOW_WIDTH),
                height: number_or(prop_number(props, "height"@), WINDOW_HEIGHT),
                x: prop_number(props, "x"@),
                y: prop_number(props, "y"@),
                resizable: prop_bool(props, "resizable"@),
                draggable: prop_bool(props, "draggable"@),
                children,
            },
        )
    } else if tag == "button"@ {
        ComponentView::Button(
            ButtonPropsView {
                id,
                text: text_or(prop_str(props, "text"@), "Button"@),
                width: prop_number(props, "width"@),
                height: prop_number(props, "height"@),
                on_click: prop_str(props, "on_click"@),
                icon: prop_str(props, "icon"@),
                style: Some(button_style(props)),
            },
        )
    } else if tag == "text"@ {
        ComponentView::Text(
            TextPropsView {
                id,
                content: text_or(prop_str(props, "content"@), ""@),
                size: prop_number(props, "size"@),
                color: prop_str(props, "color"@),
                align: prop_str(props, "align"@),
                font: prop_str(props, "font"@),
            },
        )
    } else if tag == "image"@ {
        ComponentView::Image(
            ImagePropsView {
                id,
                source: text_or(prop_str(props, "source"@), ""@),
                width: prop_number(props, "width"@),
                height: prop_number(props, "height"@),
                scale: prop_number(props, "scale"@),
            },
        )
    } else if tag == "canvas"@ {
        ComponentView::Canvas(
            CanvasPropsView {
                id,
                width: number_or(prop_number(props, "width"@), PANEL_SIZE),
                height: number_or(prop_number(props, "height"@), PANEL_SIZE),
                on_draw: prop_str(props, "on_draw"@),
                on_click: prop_str(props, "on_click"@),
            },
        )
    } else if tag == "svg"@ {
        ComponentView::SVG(
            SVGPropsView {
                id,
                source: text_or(prop_str(props, "source"@), ""@),
                width: prop_number(props, "width"@),
                height: prop_number(props, "height"@),
            },
        )
    } else if tag == "scrollview"@ {
        ComponentView::ScrollView(
            ScrollViewPropsView {
                id,
                width: number_or(prop_number(props, "width"@), PANEL_SIZE),
                height: number_or(prop_number(props, "height"@), PANEL_SIZE),
                children,
            },
        )
    } else if tag == "list"@ {
        ComponentView::List(
            ListPropsView {
                id,
                items: children,
                direction: prop_str(props, "direction"@),
                spacing: prop_number(props, "spacing"@),
            },
        )
    } else if tag == "grid"@ {
        ComponentView::Grid(
            GridPropsView {
                id,
                columns: match prop_count(props, "columns"@) {
                    Some(n) => n,
                    None => GRID_COLUMNS,
                },
                rows: prop_count(props, "rows"@),
                items: children,
                spacing: prop_number(props, "spacing"@),
            },
        )
    } else if tag == "input"@ {
        ComponentView::Input(
            InputPropsView {
                id,
                placeholder: prop_str(props, "placeholder"@),
                value: prop_str(props, "value"@),
                width: prop_number(props, "width"@),
                on_change: prop_str(props, "on_change"@),
                on_submit: prop_str(props, "on_submit"@),
            },
        )
    } else if tag == "viewport3d"@ {
        ComponentView::Viewport3D(
            Viewport3DPropsView {
                id,
                width: number_or(prop_number(props, "width"@), VIEWPORT_SIZE),
                height: number_or(prop_number(props, "height"@), VIEWPORT_SIZE),
                scene: prop_str(props, "scene"@),
                camera: camera_of(props),
            },
        )
    } else if tag == "stack"@ {
        ComponentView::Stack(StackPropsView { id, children })
    } else if tag == "row"@ {
        ComponentView::Row(
            RowPropsView {
                id,
                children,
                spacing: prop_number(props, "spacing"@),
                align: prop_str(props, "align"@),
            },
        )
    } else {
        ComponentView::Column(
            ColumnPropsView {
                id,
                children,
                spacing: prop_number(props, "spacing"@),
                align: prop_str(props, "align"@),
            },
        )
    }
}

/// Whether the `props` member of a node has an acceptable shape: absent,
/// null or an object.
pub open spec fn props_shape_ok(node: JsonView) -> bool {
    match node.get("props"@) {
        None => true,
        Some(JsonView::Null) => true,
        Some(JsonView::Object(_)) => true,
        Some(_) => false,
    }
}

/// What decoding one node yields. In order: a node without a string `type`
/// is of unknown type; a node without a non-empty string `id` misses its
/// id; the first child that fails, fails the node; then the tag must be
/// known and `props` well shaped.
pub open spec fn decode_node(node: JsonView) -> Result<ComponentView, DecodeErrorView>
    decreases node, 1int,
{
    match node.field("type"@).str_value() {
        None => Err(DecodeErrorView::UnknownType(Seq::empty())),
        Some(tag) => match node.field("id"@).str_value() {
            None => Err(DecodeErrorView::MissingId),
            Some(id) => if id.len() == 0 {
                Err(DecodeErrorView::MissingId)
            } else {
                match decode_children(node) {
                    Err(e) => Err(e),
                    Ok(children) => if !known_tag(tag) {
                        Err(DecodeErrorView::UnknownType(tag))
                    } else if !props_shape_ok(node) {
                        Err(DecodeErrorView::MalformedProps)
                    } else {
                        Ok(assemble(tag, id, node.get("props"@), children))
                    },
                }
            },
        },
    }
}

/// What decoding the children of a node yields: the decoded items of its
/// `children` array, and nothing where `children` is absent or no array.
pub open spec fn decode_children(node: JsonView) -> Result<Seq<ComponentView>, DecodeErrorView>
    decreases node, 0int,
{
    match node {
        JsonView::Object(members) => match member_lookup(members, "children"@) {
            Some(JsonView::Array(items)) => {
                proof {
                    lemma_lookup_decreases(members, "children"@);
                }
                decode_nodes(items)
            },
            _ => Ok(Seq::empty()),
        },
        _ => Ok(Seq::empty()),
    }
}

/// What decoding a sequence of nodes yields: the decoded nodes in order, or
/// the error of the first node that fails.
pub open spec fn decode_nodes(nodes: Seq<JsonView>) -> Result<Seq<ComponentView>, DecodeErrorView>
    decreases nodes, 2int,
{
    if nodes.len() == 0 {
        Ok(Seq::empty())
    } else {
        match decode_nodes(nodes.drop_last()) {
            Err(e) => Err(e),
            Ok(done) => match decode_node(nodes.last()) {
                Err(e) => Err(e),
                Ok(c) => Ok(done.push(c)),
            },
        }
    }
}

/// The view of an optional reference to a value.
pub open spec fn opt_view(value: Option<&Json>) -> Option<JsonView> {
    match value {
        Some(v) => Some(v@),
        None => None,
    }
}

/// The view of the outcome of decoding one node.
pub open spec fn node_result_view(r: Result<UIComponent, DecodeError>) -> Result<
    ComponentView,
    DecodeErrorView,
> {
    match r {
        Ok(c) => Ok(c@),
        Err(e) => Err(e@),
    }
}

/// The view of the outcome of decoding a sequence of nodes.
pub open spec fn nodes_result_view(r: Result<Vec<UIComponent>, DecodeError>) -> Result<
    Seq<ComponentView>,
    DecodeErrorView,
> {
    match r {
        Ok(v) => Ok(components_view(v@)),
        Err(e) => Err(e@),
    }
}

fn get_prop<'a>(props: Option<&'a Json>, key: &str) -> (r: Option<&'a Json>)
    ensures
        opt_view(r) == prop(opt_view(props), key@),
{
    match props {
        Some(p) => p.get(key),
        None => None,
    }
}

fn get_str(props: Option<&Json>, key: &str) -> (r: Option<String>)
    ensures
        r.deep_view() == prop_str(opt_view(props), key@),
{
    match get_prop(props, key) {
        Some(v) => match v.as_str() {
            Some(s) => Some(s.clone()),
            None => None,
        },
        None => None,
    }
}

fn get_number(props: Option<&Json>, key: &str) -> (r: Option<Number>)
    ensures
        r == prop_number(opt_view(props), key@),
{
    match get_prop(props, key) {
        Some(v) => v.as_number(),
        None => None,
    }
}

fn get_bool(props: Option<&Json>, key: &str) -> (r: Option<bool>)
    ensures
        r == prop_bool(opt_view(props), key@),
{
    match get_prop(props, key) {
        Some(v) => v.as_bool(),
        None => None,
    }
}

fn get_count(props: Option<&Json>, key: &str) -> (r: Option<usize>)
    ensures
        r == prop_count(opt_view(props), key@),
{
    match get_prop(props, key) {
        Some(v) => match v.as_u64() {
            Some(n) => if n <= usize::MAX as u64 {
                Some(n as usize)
            } else {
                Some(usize::MAX)
            },
            None => None,
        },
        None => None,
    }
}

fn get_str_or(props: Option<&Json>, key: &str, default: &str) -> (r: String)
    ensures
        r@ == text_or(prop_str(opt_view(props), key@), default@),
{
    match get_str(props, key) {
        Some(s) => s,
        None => default.to_owned(),
    }
}

fn get_number_or(props: Option<&Json>, key: &str, default: u64) -> (r: Number)
    ensures
        r == number_or(prop_number(opt_view(props), key@), default),
{
    match get_number(props, key) {
        Some(n) => n,
        None => Number::PosInt(default),
    }
}

/// Binds `key` to `value` in a style sheet.
fn put_style(entries: &mut Vec<Entry>, key: String, value: String)
    ensures
        final(entries).deep_view() == style_put(old(entries).deep_view(), key@, value@),
{
    let ghost start = entries@;
    let ghost before = entries.deep_view();
    let ghost bound = EntryView { key: key@, value: value@ };
    proof {
        assert(before.skip(0) =~= before);
        assert(before.take(0) + style_put(before, key@, value@) =~= style_put(
            before,
            key@,
            value@,
        ));
    }
    let mut i: usize = 0;
    while i < entries.len()
        invariant
            0 <= i <= entries.len(),
            entries@ == start,
            before == old(entries).deep_view(),
            start.len() == before.len(),
            forall|k: int| 0 <= k < start.len() ==> #[trigger] before[k] == start[k].deep_view(),
            bound == (EntryView { key: key@, value: value@ }),
            style_put(before, key@, value@) == before.take(i as int) + style_put(
                before.skip(i as int),
                key@,
                value@,
            ),
        decreases entries.len() - i,
    {
        let ghost rest = before.skip(i as int);
        assert(rest[0] == before[i as int]);
        if entries[i].key == key {
            entries[i].value = value;
            assert(style_put(rest, key@, value@) == rest.update(0, bound));
            assert(entries.deep_view() =~= before.take(i as int) + rest.update(0, bound)) by {
                assert(entries.deep_view().len() == before.len());
                assert forall|k: int| 0 <= k < before.len() implies entries.deep_view()[k] == (
                before.take(i as int) + rest.update(0, bound))[k] by {
                    assert(entries.deep_view()[k] == entries@[k].deep_view());
                    if k < i {
                        assert(entries@[k] == start[k]);
                    } else if k == i {
                    } else {
                        assert(entries@[k] == start[k]);
                        assert(rest[k - i] == before[k]);
                    }
                }
            }
            return ;
        }
        assert(style_put(rest, key@, value@) == seq![rest[0]] + style_put(
            rest.drop_first(),
            key@,
            value@,
        ));
        assert(rest.drop_first() =~= before.skip(i as int + 1));
        assert(before.take(i as int) + (seq![rest[0]] + style_put(
            rest.drop_first(),
            key@,
            value@,
        )) =~= before.take(i as int + 1) + style_put(before.skip(i as int + 1), key@, value@));
        i = i + 1;
    }
    assert(before.skip(i as int) =~= Seq::empty());
    assert(before.take(i as int) =~= before);
    entries.push(Entry { key, value });
    assert(entries.deep_view() =~= before + seq![bound]);
}

fn style_from(members: &Vec<Member>) -> (r: Vec<Entry>)
    ensures
        r.deep_view() == style_of(members_view(members@)),
{
    let mut out: Vec<Entry> = Vec::new();
    let ghost all = members_view(members@);
    proof {
        lemma_members_view(members@);
        assert(all.take(0) =~= Seq::empty());
        assert(out.deep_view() =~= Seq::empty());
    }
    let mut i: usize = 0;
    while i < members.len()
        invariant
            0 <= i <= members.len(),
            all == members_view(members@),
            all.len() == members.len(),
            forall|k: int| 0 <= k < members.len() ==> #[trigger] all[k] == members[k]@,
            out.deep_view() == style_of(all.take(i as int)),
        decreases members.len() - i,
    {
        proof {
            assert(all.take(i as int + 1).drop_last() =~= all.take(i as int));
            assert(all.take(i as int + 1).last() == all[i as int]);
        }
        match &members[i].value {
            Json::Str(s) => {
                put_style(&mut out, members[i].key.clone(), s.clone());
            },
            _ => {},
        }
        i = i + 1;
    }
    proof {
        assert(all.take(i as int) =~= all);
    }
    out
}

fn style_of_button(props: Option<&Json>) -> (r: Vec<Entry>)
    ensures
        r.deep_view() == button_style(opt_view(props)),
{
    match get_prop(props, "style") {
        Some(v) => match v.as_object() {
            Some(members) => style_from(members),
            None => {
                let out: Vec<Entry> = Vec::new();
                assert(out.deep_view() =~= Seq::empty());
                out
            },
        },
        None => {
            let out: Vec<Entry> = Vec::new();
            assert(out.deep_view() =~= Seq::empty());
            out
        },
    }
}

fn coordinate_of(items: &Vec<Json>, index: usize, default: u64) -> (r: Number)
    requires
        index < items.len(),
    ensures
        r == coordinate(items_view(items@), index as int, default),
{
    proof {
        lemma_items_view(items@);
    }
    match items[index].as_number() {
        Some(n) => n,
        None => Number::PosInt(default),
    }
}

fn vector_of(camera: &Json, key: &str, d0: u64, d1: u64, d2: u64) -> (r: [Number; 3])
    ensures
        r@ == camera_vector(camera@, key@, d0, d1, d2),
{
    let fallback = [Number::PosInt(d0), Number::PosInt(d1), Number::PosInt(d2)];
    assert(fallback@ =~= seq![Number::PosInt(d0), Number::PosInt(d1), Number::PosInt(d2)]);
    match camera.get(key) {
        Some(v) => match v.as_array() {
            Some(items) => {
                proof {
                    lemma_items_view(items@);
                }
                if items.len() >= 3 {
                    let out = [
                        coordinate_of(items, 0, d0),
                        coordinate_of(items, 1, d1),
                        coordinate_of(items, 2, d2),
                    ];
                    assert(out@ =~= camera_vector(camera@, key@, d0, d1, d2));
                    out
                } else {
                    fallback
                }
            },
            None => fallback,
        },
        None => fallback,
    }
}

fn camera_from(props: Option<&Json>) -> (r: Option<CameraProps>)
    ensures
        r.deep_view() == camera_of(opt_view(props)),
{
    match get_prop(props, "camera") {
        Some(camera) => Some(
            CameraProps {
                position: vector_of(camera, "position", 0, 5, 10),
                target: vector_of(camera, "target", 0, 0, 0),
            },
        ),
        None => None,
    }
}

fn is_known_tag(tag: &String) -> (r: bool)
    ensures
        r == known_tag(tag@),
{
    string_is(tag, "window") || string_is(tag, "button") || string_is(tag, "text") || string_is(
        tag,
        "image",
    ) || string_is(tag, "canvas") || string_is(tag, "svg") || string_is(tag, "scrollview")
        || string_is(tag, "list") || string_is(tag, "grid") || string_is(tag, "input")
        || string_is(tag, "viewport3d") || string_is(tag, "stack") || string_is(tag, "row")
        || string_is(tag, "column")
}

fn make_component(tag: &String, id: String, props: Option<&Json>, children: Vec<UIComponent>) -> (r:
    UIComponent)
    ensures
        r@ == assemble(tag@, id@, opt_view(props), components_view(children@)),
{
    if string_is(tag, "window") {
        UIComponent::Window(
            WindowProps {
                id,
                title: get_str_or(props, "title", "Window"),
                width: get_number_or(props, "width", WINDOW_WIDTH),
                height: get_number_or(props, "height", WINDOW_HEIGHT),
                x: get_number(props, "x"),
                y: get_number(props, "y"),
                resizable: get_bool(props, "resizable"),
                draggable: get_bool(props, "draggable"),
                children,
            },
        )
    } else if string_is(tag, "button") {
        UIComponent::Button(
            ButtonProps {
                id,
                text: get_str_or(props, "text", "Button"),
                width: get_number(props, "width"),
                height: get_number(props, "height"),
                on_click: get_str(props, "on_click"),
                icon: get_str(props, "icon"),
                style: Some(style_of_button(props)),
            },
        )
    } else if string_is(tag, "text") {
        UIComponent::Text(
            TextProps {
                id,
                content: get_str_or(props, "content", ""),
                size: get_number(props, "size"),
                color: get_str(props, "color"),
                align: get_str(props, "align"),
                font: get_str(props, "font"),
            },
        )
    } else if string_is(tag, "image") {
        UIComponent::Image(
            ImageProps {
                id,
                source: get_str_or(props, "source", ""),
                width: get_number(props, "width"),
                height: get_number(props, "height"),
                scale: get_number(props, "scale"),
            },
        )
    } else if string_is(tag, "canvas") {
        UIComponent::Canvas(
            CanvasProps {
                id,
                width: get_number_or(props, "width", PANEL_SIZE),
                height: get_number_or(props, "height", PANEL_SIZE),
                on_draw: get_str(props, "on_draw"),
                on_click: get_str(props, "on_click"),
            },
        )
    } else if string_is(tag, "svg") {
        UIComponent::SVG(
            SVGProps {
                id,
                source: get_str_or(props, "source", ""),
                width: get_number(props, "width"),
                height: get_number(props, "height"),
            },
        )
    } else if string_is(tag, "scrollview") {
        UIComponent::ScrollView(
            ScrollViewProps {
                id,
                width: get_number_or(props, "width", PANEL_SIZE),
                height: get_number_or(props, "height", PANEL_SIZE),
                children,
            },
        )
    } else if string_is(tag, "list") {
        UIComponent::List(
            ListProps {
                id,
                items: children,
                direction: get_str(props, "direction"),
                spacing: get_number(props, "spacing"),
            },
        )
    } else if string_is(tag, "grid") {
        let columns = match get_count(props, "columns") {
            Some(n) => n,
            None => GRID_COLUMNS,
        };
        UIComponent::Grid(
            GridProps {
                id,
                columns,
                rows: get_count(props, "rows"),
                items: children,
                spacing: get_number(props, "spacing"),
            },
        )
    } else if string_is(tag, "input") {
        UIComponent::Input(
            InputProps {
                id,
                placeholder: get_str(props, "placeholder"),
                value: get_str(props, "value"),
                width: get_number(props, "width"),
                on_change: get_str(props, "on_change"),
                on_submit: get_str(props, "on_submit"),
            },
        )
    } else if string_is(tag, "viewport3d") {
        UIComponent::Viewport3D(
            Viewport3DProps {
                id,
                width: get_number_or(props, "width", VIEWPORT_SIZE),
                height: get_number_or(props, "height", VIEWPORT_SIZE),
                scene: get_str(props, "scene"),
                camera: camera_from(props),
            },
        )
    } else if string_is(tag, "stack") {
        UIComponent::Stack(StackProps { id, children })
    } else if string_is(tag, "row") {
        UIComponent::Row(
            RowProps {
                id,
                children,
                spacing: get_number(props, "spacing"),
                align: get_str(props, "align"),
            },
        )
    } else {
        UIComponent::Column(
            ColumnProps {
                id,
                children,
                spacing: get_number(props, "spacing"),
                align: get_str(props, "align"),
            },
        )
    }
}

fn props_ok(node: &Json) -> (r: bool)
    ensures
        r == props_shape_ok(node@),
{
    match node.get("props") {
        None => true,
        Some(p) => match p {
            Json::Null => true,
            Json::Object(_) => true,
            _ => false,
        },
    }
}

/// Decodes one node of a payload.
pub fn decode_value(node: &Json) -> (r: Result<UIComponent, DecodeError>)
    ensures
        node_result_view(r) == decode_node(node@),
    decreases node,
{
    let tag: &String = match node.get("type") {
        Some(t) => match t.as_str() {
            Some(s) => s,
            None => {
                return Err(DecodeError::UnknownType(String::new()));
            },
        },
        None => {
            return Err(DecodeError::UnknownType(String::new()));
        },
    };
    let id: &String = match node.get("id") {
        Some(t) => match t.as_str() {
            Some(s) => s,
            None => {
                return Err(DecodeError::MissingId);
            },
        },
        None => {
            return Err(DecodeError::MissingId);
        },
    };
    if id.as_str().unicode_len() == 0 {
        return Err(DecodeError::MissingId);
    }
    let children: Vec<UIComponent> = match node.get("children") {
        Some(c) => match c.as_array() {
            Some(items) => match decode(items) {
                Ok(v) => v,
                Err(e) => {
                    return Err(e);
                },
            },
            None => Vec::new(),
        },
        None => Vec::new(),
    };
    if !is_known_tag(tag) {
        return Err(DecodeError::UnknownType(tag.clone()));
    }
    if !props_ok(node) {
        return Err(DecodeError::MalformedProps);
    }
    Ok(make_component(tag, id.clone(), node.get("props"), children))
}

/// Decodes a payload: every node in order, or the error of the first node
/// that fails. No component is handed out unless all decode.
#[verifier::loop_isolation(false)]
pub fn decode(payload: &Vec<Json>) -> (r: Result<Vec<UIComponent>, DecodeError>)
    ensures
        nodes_result_view(r) == decode_nodes(items_view(payload@)),
    decreases payload,
{
    let mut out: Vec<UIComponent> = Vec::new();
    let ghost nodes = items_view(payload@);
    proof {
        lemma_items_view(payload@);
        assert(nodes.take(0) =~= Seq::empty());
    }
    let mut i: usize = 0;
    while i < payload.len()
        invariant
            0 <= i <= payload.len(),
            decode_nodes(nodes.take(i as int)) == Ok::<Seq<ComponentView>, DecodeErrorView>(
                components_view(out@),
            ),
        decreases payload.len() - i,
    {
        proof {
            assert(nodes.take(i as int + 1).drop_last() =~= nodes.take(i as int));
            assert(nodes.take(i as int + 1).last() == nodes[i as int]);
        }
        match decode_value(&payload[i]) {
            Ok(c) => {
                let ghost before = out@;
                out.push(c);
                proof {
                    assert(out@.drop_last() =~= before);
                }
            },
            Err(e) => {
                proof {
                    lemma_first_error(nodes, i as int);
                }
                return Err(e);
            },
        }
        i = i + 1;
    }
    proof {
        assert(nodes.take(i as int) =~= nodes);
    }
    Ok(out)
}

/// Once a prefix of a payload fails, the whole payload fails in the same
/// way.
pub proof fn lemma_first_error(nodes: Seq<JsonView>, i: int)
    requires
        0 <= i < nodes.len(),
        decode_nodes(nodes.take(i + 1)) is Err,
    ensures
        decode_nodes(nodes) == decode_nodes(nodes.take(i + 1)),
    decreases nodes.len(),
{
    if i + 1 == nodes.len() {
        assert(nodes.take(i + 1) =~= nodes);
    } else {
        assert(nodes.drop_last().take(i + 1) =~= nodes.take(i + 1));
        lemma_first_error(nodes.drop_last(), i);
    }
}

/// What decoding a parsed text yields: the text must hold a JSON array, and
/// its items decode as the nodes of a payload.
pub open spec fn decode_payload(parsed: Option<JsonView>) -> Result<
    Seq<ComponentView>,
    DecodeErrorView,
> {
    match parsed {
        Some(JsonView::Array(items)) => decode_nodes(items),
        _ => Err(DecodeErrorView::MalformedProps),
    }
}

impl DecodeErrorView {
    /// The message under which the error is reported.
    pub open spec fn message(self) -> Seq<char> {
        match self {
            DecodeErrorView::UnknownType(tag) => "Type de composant inconnu: "@ + tag,
            DecodeErrorView::MissingId => "ID de composant manquant"@,
            DecodeErrorView::MalformedProps => "Erreur lors de la désérialisation JSON"@,
        }
    }
}

impl DecodeError {
    /// The message under which the error is reported.
    pub fn message(&self) -> (r: String)
        ensures
            r@ == self@.message(),
    {
        match self {
            DecodeError::UnknownType(tag) => {
                "Type de composant inconnu: ".to_owned().concat(tag.as_str())
            },
            DecodeError::MissingId => "ID de composant manquant".to_owned(),
            DecodeError::MalformedProps => "Erreur lors de la désérialisation JSON".to_owned(),
        }
    }
}

/// The components that one evaluation of a script produced, with the errors
/// the script raised.
#[derive(Debug, PartialEq, Eq)]
pub struct DSLEvaluationResult {
    pub components: Vec<UIComponent>,
    pub errors: Vec<String>,
}

/// What the script evaluator reports after it ran a script.
#[derive(Debug, Clone, PartialEq, Eq)]
pub enum ScriptOutcome {
    /// The script ran; this is the component tree it exported, as JSON text.
    Exported(String),
    /// The script itself raised an error.
    Raised(String),
    /// The evaluator could not be reset, or could not export the tree.
    Failed(String),
}

/// Mathematical view of a [`DSLEvaluationResult`].
pub struct EvaluationView {
    pub components: Seq<ComponentView>,
    pub errors: Seq<Seq<char>>,
}

impl View for DSLEvaluationResult {
    type V = EvaluationView;

    open spec fn view(&self) -> EvaluationView {
        EvaluationView {
            components: components_view(self.components@),
            errors: self.errors.deep_view(),
        }
    }
}

/// Mathematical view of a [`ScriptOutcome`].
pub enum ScriptOutcomeView {
    Exported(Seq<char>),
    Raised(Seq<char>),
    Failed(Seq<char>),
}

impl View for ScriptOutcome {
    type V = ScriptOutcomeView;

    open spec fn view(&self) -> ScriptOutcomeView {
        match self {
            ScriptOutcome::Exported(json) => ScriptOutcomeView::Exported(json@),
            ScriptOutcome::Raised(detail) => ScriptOutcomeView::Raised(detail@),
            ScriptOutcome::Failed(detail) => ScriptOutcomeView::Failed(detail@),
        }
    }
}

/// What an evaluation comes to, given the value that the exported text
/// parses to. A tree that decodes is the result, without errors; one that
/// does not decode fails the evaluation with the decoder's message. An
/// error that the script raised is no failure: the result holds no
/// component and the error. A failure of the evaluator fails the
/// evaluation with the evaluator's message.
pub open spec fn evaluated(outcome: ScriptOutcomeView, parsed: Option<JsonView>) -> Result<
    EvaluationView,
    Seq<char>,
> {
    match outcome {
        ScriptOutcomeView::Exported(_) => match decode_payload(parsed) {
            Ok(components) => Ok(EvaluationView { components, errors: Seq::empty() }),
            Err(e) => Err(e.message()),
        },
        ScriptOutcomeView::Raised(detail) => Ok(
            EvaluationView {
                components: Seq::empty(),
                errors: seq!["Erreur d'évaluation: "@ + detail],
            },
        ),
        ScriptOutcomeView::Failed(detail) => Err(detail),
    }
}

/// The text that an outcome exported, empty for an outcome without one.
pub open spec fn exported_text(outcome: ScriptOutcomeView) -> Seq<char> {
    match outcome {
        ScriptOutcomeView::Exported(json) => json,
        _ => Seq::empty(),
    }
}

/// The view of the result of an evaluation.
pub open spec fn evaluation_view(r: Result<DSLEvaluationResult, String>) -> Result<
    EvaluationView,
    Seq<char>,
> {
    match r {
        Ok(e) => Ok(e@),
        Err(m) => Err(m@),
    }
}

/// The decoder of the evaluator's payloads.
#[derive(Debug, Clone, Copy, PartialEq, Eq)]
pub struct DSLParser {}

impl DSLParser {
    /// A decoder.
    pub fn new() -> (r: Self) {
        DSLParser {  }
    }

    /// Decodes the JSON text of a payload.
    ///
    /// The text is parsed by `serde_json`; the result is what [`decode`]
    /// makes of the parsed array. A text that is not JSON, or whose value is
    /// no array, is malformed.
    pub fn parse_components_json(&self, json: &str) -> (r: Result<Vec<UIComponent>, DecodeError>)
        ensures
            nodes_result_view(r) == decode_payload(json_text_value(json@)),
    {
        match parse_json(json) {
            Some(value) => match value.as_array() {
                Some(items) => decode(items),
                None => Err(DecodeError::MalformedProps),
            },
            None => Err(DecodeError::MalformedProps),
        }
    }

    /// Turns what the evaluator reports into the result of the evaluation;
    /// see [`evaluated`].
    pub fn evaluate_dsl(&self, outcome: &ScriptOutcome) -> (r: Result<DSLEvaluationResult, String>)
        ensures
            evaluation_view(r) == evaluated(
                outcome@,
                json_text_value(exported_text(outcome@)),
            ),
    {
        match outcome {
            ScriptOutcome::Exported(json) => match self.parse_components_json(json.as_str()) {
                Ok(components) => {
                    let errors: Vec<String> = Vec::new();
                    assert(errors.deep_view() =~= Seq::empty());
                    Ok(DSLEvaluationResult { components, errors })
                },
                Err(e) => Err(e.message()),
            },
            ScriptOutcome::Raised(detail) => {
                let mut errors: Vec<String> = Vec::new();
                errors.push("Erreur d'évaluation: ".to_owned().concat(detail.as_str()));
                assert(errors.deep_view() =~= seq!["Erreur d'évaluation: "@ + detail@]);
                let components: Vec<UIComponent> = Vec::new();
                Ok(DSLEvaluationResult { components, errors })
            },
            ScriptOutcome::Failed(detail) => Err(detail.clone()),
        }
    }

    /// Decodes one node. A node that decodes always yields a component.
    pub fn parse_component_value(&self, value: &Json) -> (r: Result<
        Option<UIComponent>,
        DecodeError,
    >)
        ensures
            match r {
                Ok(Some(c)) => decode_node(value@) == Ok::<ComponentView, DecodeErrorView>(c@),
                Ok(None) => false,
                Err(e) => decode_node(value@) == Err::<ComponentView, DecodeErrorView>(e@),
            },
    {
        match decode_value(value) {
            Ok(c) => Ok(Some(c)),
            Err(e) => Err(e),
        }
    }
}

/// `text` as the body of a single-quoted Ruby string: a backslash is put
/// before every single quote and before every backslash.
pub open spec fn escaped(text: Seq<char>) -> Seq<char>
    decreases text.len(),
{
    if text.len() == 0 {
        Seq::empty()
    } else if text.last() == '\'' {
        escaped(text.drop_last()) + seq!['\\', '\'']
    } else if text.last() == '\\' {
        escaped(text.drop_last()) + seq!['\\', '\\']
    } else {
        escaped(text.drop_last()).push(text.last())
    }
}

/// What the body of a single-quoted Ruby string stands for: a backslash
/// before a single quote or a backslash stands for that character, and
/// every other character for itself.
pub open spec fn unescaped(body: Seq<char>) -> Seq<char>
    decreases body.len(),
{
    if body.len() == 0 {
        Seq::empty()
    } else if body.len() >= 2 && body[0] == '\\' && (body[1] == '\'' || body[1] == '\\') {
        seq![body[1]] + unescaped(body.skip(2))
    } else {
        seq![body[0]] + unescaped(body.skip(1))
    }
}

/// Escaping goes text by text.
pub proof fn lemma_escaped_joined(a: Seq<char>, b: Seq<char>)
    ensures
        escaped(a + b) == escaped(a) + escaped(b),
    decreases b.len(),
{
    if b.len() == 0 {
        assert(a + b =~= a);
        assert(escaped(a) + escaped(b) =~= escaped(a));
    } else {
        assert((a + b).drop_last() =~= a + b.drop_last());
        assert((a + b).last() == b.last());
        lemma_escaped_joined(a, b.drop_last());
        if b.last() == '\'' {
            assert(escaped(a + b) =~= escaped(a) + escaped(b));
        } else if b.last() == '\\' {
            assert(escaped(a + b) =~= escaped(a) + escaped(b));
        } else {
            assert(escaped(a + b) =~= escaped(a) + escaped(b));
        }
    }
}

/// The call text carries every key and value unaltered: what the escaped
/// form of a text stands for is the text.
pub proof fn escaping_is_undone(text: Seq<char>)
    ensures
        unescaped(escaped(text)) == text,
    decreases text.len(),
{
    if text.len() > 0 {
        let first = seq![text[0]];
        let rest = text.skip(1);
        assert(text =~= first + rest);
        lemma_escaped_joined(first, rest);
        escaping_is_undone(rest);
        assert(first.drop_last() =~= Seq::<char>::empty());
        assert(escaped(first.drop_last()) =~= Seq::<char>::empty());
        assert(first.last() == text[0]);
        let body = escaped(text);
        if text[0] == '\'' || text[0] == '\\' {
            assert(escaped(first) =~= seq!['\\', text[0]]);
            assert(body.skip(2) =~= escaped(rest));
            assert(unescaped(body) =~= text);
        } else {
            assert(escaped(first) =~= seq![text[0]]);
            assert(body.skip(1) =~= escaped(rest));
            assert(unescaped(body) =~= text);
        }
    }
}

/// How long the body of a single-quoted Ruby string is, in a text that
/// starts right after the opening quote: the body ends before the first
/// single quote that no backslash escapes.
pub open spec fn body_length(text: Seq<char>) -> nat
    decreases text.len(),
{
    if text.len() == 0 {
        0
    } else if text[0] == '\'' {
        0
    } else if text[0] == '\\' && text.len() >= 2 {
        2 + body_length(text.skip(2))
    } else {
        1 + body_length(text.skip(1))
    }
}

/// An escaped text closes where it was meant to: followed by a single
/// quote and whatever else, its body is read up to that quote, whatever
/// quotes and backslashes the text holds.
pub proof fn escaped_text_closes(text: Seq<char>, rest: Seq<char>)
    ensures
        body_length(escaped(text) + seq!['\''] + rest) == escaped(text).len(),
    decreases text.len(),
{
    let whole = escaped(text) + seq!['\''] + rest;
    if text.len() == 0 {
        assert(whole[0] == '\'');
    } else {
        let first = seq![text[0]];
        let tail = text.skip(1);
        assert(text =~= first + tail);
        lemma_escaped_joined(first, tail);
        escaped_text_closes(tail, rest);
        assert(first.drop_last() =~= Seq::<char>::empty());
        assert(escaped(first.drop_last()) =~= Seq::<char>::empty());
        assert(first.last() == text[0]);
        let after = escaped(tail) + seq!['\''] + rest;
        if text[0] == '\'' || text[0] == '\\' {
            assert(escaped(first) =~= seq!['\\', text[0]]);
            assert(whole.skip(2) =~= after);
            assert(whole[0] == '\\');
        } else {
            assert(escaped(first) =~= seq![text[0]]);
            assert(whole.skip(1) =~= after);
            assert(whole[0] == text[0]);
        }
    }
}

/// One argument as an entry of a Ruby hash: key and value in single
/// quotes, both escaped.
pub open spec fn argument_text(argument: EntryView) -> Seq<char> {
    seq!['\''] + escaped(argument.key) + "' => '"@ + escaped(argument.value) + seq!['\'']
}

/// The arguments as the entries of a Ruby hash, separated by commas.
pub open spec fn arguments_text(arguments: Seq<EntryView>) -> Seq<char>
    decreases arguments.len(),
{
    if arguments.len() == 0 {
        Seq::empty()
    } else if arguments.len() == 1 {
        argument_text(arguments[0])
    } else {
        arguments_text(arguments.drop_last()) + ", "@ + argument_text(arguments.last())
    }
}

/// The Ruby source that invokes `name` with one hash of the arguments.
pub open spec fn call_text(name: Seq<char>, arguments: Seq<EntryView>) -> Seq<char> {
    name + "({ "@ + arguments_text(arguments) + " })"@
}

fn append_escaped(out: &mut String, text: &str)
    ensures
        final(out)@ == old(out)@ + escaped(text@),
{
    let n = text.unicode_len();
    let ghost start = out@;
    let mut i: usize = 0;
    proof {
        assert(text@.take(0) =~= Seq::empty());
        assert(start + escaped(text@.take(0)) =~= start);
        reveal_strlit("\\'");
        assert("\\'"@ =~= seq!['\\', '\'']);
        reveal_strlit("\\\\");
        assert("\\\\"@ =~= seq!['\\', '\\']);
    }
    while i < n
        invariant
            0 <= i <= n,
            n == text@.len(),
            out@ == start + escaped(text@.take(i as int)),
            "\\'"@ == seq!['\\', '\''],
            "\\\\"@ == seq!['\\', '\\'],
        decreases n - i,
    {
        proof {
            assert(text@.take(i as int + 1).drop_last() =~= text@.take(i as int));
            assert(text@.take(i as int + 1).last() == text@[i as int]);
        }
        let c = text.get_char(i);
        if c == '\'' {
            out.append("\\'");
            proof {
                assert(out@ =~= start + escaped(text@.take(i as int + 1)));
            }
        } else if c == '\\' {
            out.append("\\\\");
            proof {
                assert(out@ =~= start + escaped(text@.take(i as int + 1)));
            }
        } else {
            let one = text.substring_char(i, i + 1);
            proof {
                assert(one@ =~= seq![c]);
            }
            out.append(one);
            proof {
                assert(out@ =~= start + escaped(text@.take(i as int + 1)));
            }
        }
        i = i + 1;
    }
    proof {
        assert(text@.take(i as int) =~= text@);
    }
}

fn append_argument(out: &mut String, argument: &Entry)
    ensures
        final(out)@ == old(out)@ + argument_text(argument@),
{
    let ghost start = out@;
    proof {
        reveal_strlit("'");
        assert("'"@ =~= seq!['\'']);
    }
    out.append("'");
    append_escaped(out, argument.key.as_str());
    out.append("' => '");
    append_escaped(out, argument.value.as_str());
    out.append("'");
    proof {
        assert(out@ =~= start + argument_text(argument@));
    }
}

impl DSLParser {
    /// Forms the call that executes a callback: the Ruby source that
    /// invokes the function `callback_name` of the script with one hash of
    /// the arguments; see [`call_text`]. Keys and values are written as
    /// single-quoted strings and escaped so that they stand for themselves;
    /// the name is written as it is. The host hands the text to the
    /// evaluator.
    pub fn execute_callback(&self, callback_name: &str, args: &Vec<Entry>) -> (r: String)
        ensures
            r@ == call_text(callback_name@, args.deep_view()),
    {
        let ghost all = args.deep_view();
        let mut inner = String::new();
        let mut i: usize = 0;
        proof {
            assert(all.take(0) =~= Seq::empty());
        }
        while i < args.len()
            invariant
                0 <= i <= args.len(),
                all == args.deep_view(),
                inner@ == arguments_text(all.take(i as int)),
            decreases args.len() - i,
        {
            proof {
                assert(all.take(i as int + 1).drop_last() =~= all.take(i as int));
                assert(all.take(i as int + 1).last() == args@[i as int]@);
                assert(all.take(i as int + 1)[0] == all[0]);
            }
            if i > 0 {
                inner.append(", ");
            }
            append_argument(&mut inner, &args[i]);
            proof {
                if i == 0 {
                    assert(inner@ =~= argument_text(all[0]));
                }
            }
            i = i + 1;
        }
        proof {
            assert(all.take(i as int) =~= all);
        }
        let mut out = callback_name.to_owned();
        out.append("({ ");
        out.append(inner.as_str());
        out.append(" })");
        out
    }
}

} // verus!
