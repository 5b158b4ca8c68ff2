//! The way back: from a typed component tree to the payload that decodes to
//! it.
//!
//! A node is written with its `id`, its `type`, a `props` object that names
//! every property of its kind, and, for a container, its `children`. A
//! property without a value is written as null, which the decoder reads as
//! absent; only the camera of a viewport is left out instead, because the
//! decoder gives a camera to every viewport that names one.

use vstd::prelude::*;
use crate::json::{
    items_view, lemma_items_view, lemma_members_view, members_view, Json, JsonView, Member,
    MemberView, Number,
};
use crate::ui::components::{
    components_view, lemma_component_view, lemma_components_view, CameraProps, CameraPropsView,
    ComponentView, Entry, EntryView, UIComponent,
};

verus! {

/// The entry `key: value` of an object.
pub open spec fn field(key: Seq<char>, value: JsonView) -> MemberView {
    MemberView { key, value }
}

/// A text, or null where there is none.
pub open spec fn opt_text(value: Option<Seq<char>>) -> JsonView {
    match value {
        Some(s) => JsonView::Str(s),
        None => JsonView::Null,
    }
}

/// A number, or null where there is none.
pub open spec fn opt_number(value: Option<Number>) -> JsonView {
    match value {
        Some(n) => JsonView::Number(n),
        None => JsonView::Null,
    }
}

/// A truth value, or null where there is none.
pub open spec fn opt_flag(value: Option<bool>) -> JsonView {
    match value {
        Some(b) => JsonView::Bool(b),
        None => JsonView::Null,
    }
}

/// A count.
pub open spec fn count(value: usize) -> JsonView {
    JsonView::Number(Number::PosInt(value as u64))
}

/// A count, or null where there is none.
pub open spec fn opt_count(value: Option<usize>) -> JsonView {
    match value {
        Some(n) => count(n),
        None => JsonView::Null,
    }
}

/// The entries of a style sheet as the entries of an object.
pub open spec fn style_members(style: Seq<EntryView>) -> Seq<MemberView> {
    Seq::new(style.len(), |i: int| field(style[i].key, JsonView::Str(style[i].value)))
}

/// A style sheet as an object, or null where there is none.
pub open spec fn opt_style(style: Option<Seq<EntryView>>) -> JsonView {
    match style {
        Some(entries) => JsonView::Object(style_members(entries)),
        None => JsonView::Null,
    }
}

/// A vector as an array of numbers.
pub open spec fn vector(v: Seq<Number>) -> JsonView {
    JsonView::Array(Seq::new(v.len(), |i: int| JsonView::Number(v[i])))
}

/// A camera as an object with its position and its target.
pub open spec fn camera_value(camera: CameraPropsView) -> JsonView {
    JsonView::Object(
        seq![
            field("position"@, vector(camera.position)),
            field("target"@, vector(camera.target)),
        ],
    )
}

/// The properties of a component, in the order in which they are written.
pub open spec fn props_of(c: ComponentView) -> Seq<MemberView> {
    match c {
        ComponentView::Window(p) => seq![
            field("title"@, JsonView::Str(p.title)),
            field("width"@, JsonView::Number(p.width)),
            field("height"@, JsonView::Number(p.height)),
            field("x"@, opt_number(p.x)),
            field("y"@, opt_number(p.y)),
            field("resizable"@, opt_flag(p.resizable)),
            field("draggable"@, opt_flag(p.draggable)),
        ],
        ComponentView::Button(p) => seq![
            field("text"@, JsonView::Str(p.text)),
            field("width"@, opt_number(p.width)),
            field("height"@, opt_number(p.height)),
            field("on_click"@, opt_text(p.on_click)),
            field("icon"@, opt_text(p.icon)),
            field("style"@, opt_style(p.style)),
        ],
        ComponentView::Text(p) => seq![
            field("content"@, JsonView::Str(p.content)),
            field("size"@, opt_number(p.size)),
            field("color"@, opt_text(p.color)),
            field("align"@, opt_text(p.align)),
            field("font"@, opt_text(p.font)),
        ],
        ComponentView::Image(p) => seq![
            field("source"@, JsonView::Str(p.source)),
            field("width"@, opt_number(p.width)),
            field("height"@, opt_number(p.height)),
            field("scale"@, opt_number(p.scale)),
        ],
        ComponentView::Canvas(p) => seq![
            field("width"@, JsonView::Number(p.width)),
            field("height"@, JsonView::Number(p.height)),
            field("on_draw"@, opt_text(p.on_draw)),
            field("on_click"@, opt_text(p.on_click)),
        ],
        ComponentView::SVG(p) => seq![
            field("source"@, JsonView::Str(p.source)),
            field("width"@, opt_number(p.width)),
            field("height"@, opt_number(p.height)),
        ],
        ComponentView::ScrollView(p) => seq![
            field("width"@, JsonView::Number(p.width)),
            field("height"@, JsonView::Number(p.height)),
        ],
        ComponentView::List(p) => seq![
            field("direction"@, opt_text(p.direction)),
            field("spacing"@, opt_number(p.spacing)),
        ],
        ComponentView::Grid(p) => seq![
            field("columns"@, count(p.columns)),
            field("rows"@, opt_count(p.rows)),
            field("spacing"@, opt_number(p.spacing)),
        ],
        ComponentView::Input(p) => seq![
            field("placeholder"@, opt_text(p.placeholder)),
            field("value"@, opt_text(p.value)),
            field("width"@, opt_number(p.width)),
            field("on_change"@, opt_text(p.on_change)),
            field("on_submit"@, opt_text(p.on_submit)),
        ],
        ComponentView::Viewport3D(p) => match p.camera {
            Some(camera) => seq![
                field("width"@, JsonView::Number(p.width)),
                field("height"@, JsonView::Number(p.height)),
                field("scene"@, opt_text(p.scene)),
                field("camera"@, camera_value(camera)),
            ],
            None => seq![
                field("width"@, JsonView::Number(p.width)),
                field("height"@, JsonView::Number(p.height)),
                field("scene"@, opt_text(p.scene)),
            ],
        },
        ComponentView::Stack(p) => Seq::empty(),
        ComponentView::Row(p) => seq![
            field("spacing"@, opt_number(p.spacing)),
            field("align"@, opt_text(p.align)),
        ],
        ComponentView::Column(p) => seq![
            field("spacing"@, opt_number(p.spacing)),
            field("align"@, opt_text(p.align)),
        ],
    }
}

/// The members that every node has: its id, its type and its properties.
pub open spec fn head_of(c: ComponentView) -> Seq<MemberView> {
    seq![
        field("id"@, JsonView::Str(c.id())),
        field("type"@, JsonView::Str(c.tag())),
        field("props"@, JsonView::Object(props_of(c))),
    ]
}

/// The node with the members `head` and the children `children`.
pub open spec fn with_children(head: Seq<MemberView>, children: Seq<JsonView>) -> JsonView {
    JsonView::Object(head.push(field("children"@, JsonView::Array(children))))
}

/// The node that a component is written as.
pub open spec fn encode_node(c: ComponentView) -> JsonView
    decreases c,
{
    match c {
        ComponentView::Window(p) => with_children(head_of(c), encode_nodes(p.children)),
        ComponentView::ScrollView(p) => with_children(head_of(c), encode_nodes(p.children)),
        ComponentView::List(p) => with_children(head_of(c), encode_nodes(p.items)),
        ComponentView::Grid(p) => with_children(head_of(c), encode_nodes(p.items)),
        ComponentView::Stack(p) => with_children(head_of(c), encode_nodes(p.children)),
        ComponentView::Row(p) => with_children(head_of(c), encode_nodes(p.children)),
        ComponentView::Column(p) => with_children(head_of(c), encode_nodes(p.children)),
        _ => JsonView::Object(head_of(c)),
    }
}

/// The nodes that a sequence of components is written as, in order.
pub open spec fn encode_nodes(s: Seq<ComponentView>) -> Seq<JsonView>
    decreases s,
{
    if s.len() == 0 {
        Seq::empty()
    } else {
        encode_nodes(s.drop_last()).push(encode_node(s.last()))
    }
}

fn member(key: &str, value: Json) -> (r: Member)
    ensures
        r@ == field(key@, value@),
{
    Member { key: key.to_owned(), value }
}

fn text(value: &String) -> (r: Json)
    ensures
        r@ == JsonView::Str(value@),
{
    Json::Str(value.clone())
}

fn text_or_null(value: &Option<String>) -> (r: Json)
    ensures
        r@ == opt_text(value.deep_view()),
{
    match value {
        Some(s) => Json::Str(s.clone()),
        None => Json::Null,
    }
}

fn number_or_null(value: Option<Number>) -> (r: Json)
    ensures
        r@ == opt_number(value),
{
    match value {
        Some(n) => Json::Number(n),
        None => Json::Null,
    }
}

fn flag_or_null(value: Option<bool>) -> (r: Json)
    ensures
        r@ == opt_flag(value),
{
    match value {
        Some(b) => Json::Bool(b),
        None => Json::Null,
    }
}

fn count_value(value: usize) -> (r: Json)
    ensures
        r@ == count(value),
{
    Json::Number(Number::PosInt(value as u64))
}

fn count_or_null(value: Option<usize>) -> (r: Json)
    ensures
        r@ == opt_count(value),
{
    match value {
        Some(n) => count_value(n),
        None => Json::Null,
    }
}

fn style_or_null(style: &Option<Vec<Entry>>) -> (r: Json)
    ensures
        r@ == opt_style(style.deep_view()),
{
    match style {
        Some(entries) => {
            let mut members: Vec<Member> = Vec::new();
            let mut i: usize = 0;
            while i < entries.len()
                invariant
                    0 <= i <= entries.len(),
                    members.len() == i,
                    forall|k: int|
                        0 <= k < i ==> #[trigger] members@[k]@ == field(
                            entries@[k].key@,
                            JsonView::Str(entries@[k].value@),
                        ),
                decreases entries.len() - i,
            {
                members.push(member(entries[i].key.as_str(), text(&entries[i].value)));
                i = i + 1;
            }
            proof {
                lemma_members_view(members@);
                assert(members_view(members@) =~= style_members(entries.deep_view()));
            }
            Json::Object(members)
        },
        None => Json::Null,
    }
}

fn vector_value(v: &[Number; 3]) -> (r: Json)
    ensures
        r@ == vector(v@),
{
    let mut items: Vec<Json> = Vec::new();
    items.push(Json::Number(v[0]));
    items.push(Json::Number(v[1]));
    items.push(Json::Number(v[2]));
    proof {
        lemma_items_view(items@);
        assert(items_view(items@) =~= Seq::new(v@.len(), |i: int| JsonView::Number(v@[i])));
    }
    Json::Array(items)
}

fn camera_of(camera: &CameraProps) -> (r: Json)
    ensures
        r@ == camera_value(camera@),
{
    let mut members: Vec<Member> = Vec::new();
    members.push(member("position", vector_value(&camera.position)));
    members.push(member("target", vector_value(&camera.target)));
    proof {
        lemma_members_view(members@);
        assert(members_view(members@) =~= seq![
            field("position"@, vector(camera@.position)),
            field("target"@, vector(camera@.target)),
        ]);
    }
    Json::Object(members)
}

fn props_value(component: &UIComponent) -> (r: Vec<Member>)
    ensures
        members_view(r@) == props_of(component@),
{
    let mut props: Vec<Member> = Vec::new();
    proof {
        lemma_component_view(*component);
    }
    match component {
        UIComponent::Window(p) => {
            props.push(member("title", text(&p.title)));
            props.push(member("width", Json::Number(p.width)));
            props.push(member("height", Json::Number(p.height)));
            props.push(member("x", number_or_null(p.x)));
            props.push(member("y", number_or_null(p.y)));
            props.push(member("resizable", flag_or_null(p.resizable)));
            props.push(member("draggable", flag_or_null(p.draggable)));
        },
        UIComponent::Button(p) => {
            props.push(member("text", text(&p.text)));
            props.push(member("width", number_or_null(p.width)));
            props.push(member("height", number_or_null(p.height)));
            props.push(member("on_click", text_or_null(&p.on_click)));
            props.push(member("icon", text_or_null(&p.icon)));
            props.push(member("style", style_or_null(&p.style)));
        },
        UIComponent::Text(p) => {
            props.push(member("content", text(&p.content)));
            props.push(member("size", number_or_null(p.size)));
            props.push(member("color", text_or_null(&p.color)));
            props.push(member("align", text_or_null(&p.align)));
            props.push(member("font", text_or_null(&p.font)));
        },
        UIComponent::Image(p) => {
            props.push(member("source", text(&p.source)));
            props.push(member("width", number_or_null(p.width)));
            props.push(member("height", number_or_null(p.height)));
            props.push(member("scale", number_or_null(p.scale)));
        },
        UIComponent::Canvas(p) => {
            props.push(member("width", Json::Number(p.width)));
            props.push(member("height", Json::Number(p.height)));
            props.push(member("on_draw", text_or_null(&p.on_draw)));
            props.push(member("on_click", text_or_null(&p.on_click)));
        },
        UIComponent::SVG(p) => {
            props.push(member("source", text(&p.source)));
            props.push(member("width", number_or_null(p.width)));
            props.push(member("height", number_or_null(p.height)));
        },
        UIComponent::ScrollView(p) => {
            props.push(member("width", Json::Number(p.width)));
            props.push(member("height", Json::Number(p.height)));
        },
        UIComponent::List(p) => {
            props.push(member("direction", text_or_null(&p.direction)));
            props.push(member("spacing", number_or_null(p.spacing)));
        },
        UIComponent::Grid(p) => {
            props.push(member("columns", count_value(p.columns)));
            props.push(member("rows", count_or_null(p.rows)));
            props.push(member("spacing", number_or_null(p.spacing)));
        },
        UIComponent::Input(p) => {
            props.push(member("placeholder", text_or_null(&p.placeholder)));
            props.push(member("value", text_or_null(&p.value)));
            props.push(member("width", number_or_null(p.width)));
            props.push(member("on_change", text_or_null(&p.on_change)));
            props.push(member("on_submit", text_or_null(&p.on_submit)));
        },
        UIComponent::Viewport3D(p) => {
            props.push(member("width", Json::Number(p.width)));
            props.push(member("height", Json::Number(p.height)));
            props.push(member("scene", text_or_null(&p.scene)));
            match &p.camera {
                Some(camera) => {
                    props.push(member("camera", camera_of(camera)));
                },
                None => {},
            }
        },
        UIComponent::Stack(_) => {},
        UIComponent::Row(p) => {
            props.push(member("spacing", number_or_null(p.spacing)));
            props.push(member("align", text_or_null(&p.align)));
        },
        UIComponent::Column(p) => {
            props.push(member("spacing", number_or_null(p.spacing)));
            props.push(member("align", text_or_null(&p.align)));
        },
    }
    proof {
        lemma_members_view(props@);
        assert(members_view(props@) =~= props_of(component@));
    }
    props
}

/// The children of a container, `None` for a leaf.
pub fn children_of(component: &UIComponent) -> (r: Option<&Vec<UIComponent>>)
    ensures
        match r {
            Some(children) => {
                &&& components_view(children@) == component@.children()
                &&& decreases_to!(component => children)
                &&& !is_leaf(component@)
            },
            None => is_leaf(component@),
        },
{
    proof {
        lemma_component_view(*component);
    }
    match component {
        UIComponent::Window(p) => Some(&p.children),
        UIComponent::ScrollView(p) => Some(&p.children),
        UIComponent::List(p) => Some(&p.items),
        UIComponent::Grid(p) => Some(&p.items),
        UIComponent::Stack(p) => Some(&p.children),
        UIComponent::Row(p) => Some(&p.children),
        UIComponent::Column(p) => Some(&p.children),
        _ => None,
    }
}

/// Whether a component is of a kind that holds no others.
pub open spec fn is_leaf(c: ComponentView) -> bool {
    match c {
        ComponentView::Window(_) => false,
        ComponentView::ScrollView(_) => false,
        ComponentView::List(_) => false,
        ComponentView::Grid(_) => false,
        ComponentView::Stack(_) => false,
        ComponentView::Row(_) => false,
        ComponentView::Column(_) => false,
        _ => true,
    }
}

/// Writes a component as the node that decodes to it.
pub fn encode(component: &UIComponent) -> (r: Json)
    ensures
        r@ == encode_node(component@),
    decreases component,
{
    let mut members: Vec<Member> = Vec::new();
    members.push(member("id", text(component.id())));
    members.push(member("type", Json::Str(component.type_tag().to_owned())));
    members.push(member("props", Json::Object(props_value(component))));
    proof {
        lemma_members_view(members@);
        assert(members_view(members@) =~= head_of(component@));
    }
    match children_of(component) {
        Some(children) => {
            let nodes = encode_all(children);
            let ghost before = members_view(members@);
            members.push(member("children", Json::Array(nodes)));
            proof {
                lemma_members_view(members@);
                assert(members_view(members@) =~= before.push(
                    field("children"@, JsonView::Array(items_view(nodes@))),
                ));
            }
        },
        None => {},
    }
    Json::Object(members)
}

/// Writes a forest as the payload that decodes to it.
#[verifier::loop_isolation(false)]
pub fn encode_all(components: &Vec<UIComponent>) -> (r: Vec<Json>)
    ensures
        items_view(r@) == encode_nodes(components_view(components@)),
    decreases components,
{
    let ghost s = components_view(components@);
    let mut out: Vec<Json> = Vec::new();
    proof {
        lemma_components_view(components@);
        assert(s.take(0) =~= Seq::empty());
    }
    let mut i: usize = 0;
    while i < components.len()
        invariant
            0 <= i <= components.len(),
            items_view(out@) == encode_nodes(s.take(i as int)),
        decreases components.len() - i,
    {
        proof {
            assert(s.take(i as int + 1).drop_last() =~= s.take(i as int));
            assert(s.take(i as int + 1).last() == s[i as int]);
        }
        let ghost before = out@;
        out.push(encode(&components[i]));
        proof {
            assert(out@.drop_last() =~= before);
        }
        i = i + 1;
    }
    proof {
        assert(s.take(i as int) =~= s);
    }
    out
}

} // verus!
