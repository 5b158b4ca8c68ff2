//! Decoding undoes encoding, and what was decoded once decodes to itself
//! again.

use vstd::prelude::*;
use crate::dsl::encoder::{
    camera_value, encode_node, encode_nodes, field, head_of, is_leaf, props_of, style_members,
    vector,
};
use crate::dsl::parser::{
    assemble, camera_vector, decode_children, decode_node, decode_nodes, known_tag, prop,
    props_shape_ok, style_of, style_put, DecodeErrorView,
};
use crate::json::{lemma_lookup_decreases, member_lookup, JsonView, MemberView, Number};
use crate::ui::components::{keys_distinct, ComponentView, EntryView};

verus! {

/// The entry at `i` is what a lookup of its key finds, if no entry before
/// it has the key.
pub proof fn lemma_lookup_at(members: Seq<MemberView>, key: Seq<char>, i: int)
    requires
        0 <= i < members.len(),
        members[i].key == key,
        forall|j: int| 0 <= j < i ==> (#[trigger] members[j]).key != key,
    ensures
        member_lookup(members, key) == Some(members[i].value),
    decreases i,
{
    if i > 0 {
        let rest = members.drop_first();
        assert(rest[i - 1] == members[i]);
        assert forall|j: int| 0 <= j < i - 1 implies (#[trigger] rest[j]).key != key by {
            assert(rest[j] == members[j + 1]);
        }
        lemma_lookup_at(rest, key, i - 1);
    }
}

/// A lookup finds nothing where no entry has the key.
pub proof fn lemma_lookup_none(members: Seq<MemberView>, key: Seq<char>)
    requires
        forall|j: int| 0 <= j < members.len() ==> (#[trigger] members[j]).key != key,
    ensures
        member_lookup(members, key) is None,
    decreases members.len(),
{
    if members.len() > 0 {
        let rest = members.drop_first();
        assert forall|j: int| 0 <= j < rest.len() implies (#[trigger] rest[j]).key != key by {
            assert(rest[j] == members[j + 1]);
        }
        lemma_lookup_none(rest, key);
    }
}

/// The tag of a component tells its kind, and is one of the known tags.
pub proof fn lemma_tag_of(c: ComponentView)
    ensures
        known_tag(c.tag()),
        c.tag() == "window"@ <==> c is Window,
        c.tag() == "button"@ <==> c is Button,
        c.tag() == "text"@ <==> c is Text,
        c.tag() == "image"@ <==> c is Image,
        c.tag() == "canvas"@ <==> c is Canvas,
        c.tag() == "svg"@ <==> c is SVG,
        c.tag() == "scrollview"@ <==> c is ScrollView,
        c.tag() == "list"@ <==> c is List,
        c.tag() == "grid"@ <==> c is Grid,
        c.tag() == "input"@ <==> c is Input,
        c.tag() == "viewport3d"@ <==> c is Viewport3D,
        c.tag() == "stack"@ <==> c is Stack,
        c.tag() == "row"@ <==> c is Row,
        c.tag() == "column"@ <==> c is Column,
{
    reveal_strlit("window");
    assert("window"@.len() == 6);
    assert("window"@[0] == 'w');
    assert("window"@[1] == 'i');
    reveal_strlit("button");
    assert("button"@.len() == 6);
    assert("button"@[0] == 'b');
    assert("button"@[1] == 'u');
    reveal_strlit("text");
    assert("text"@.len() == 4);
    assert("text"@[0] == 't');
    assert("text"@[1] == 'e');
    reveal_strlit("image");
    assert("image"@.len() == 5);
    assert("image"@[0] == 'i');
    assert("image"@[1] == 'm');
    reveal_strlit("canvas");
    assert("canvas"@.len() == 6);
    assert("canvas"@[0] == 'c');
    assert("canvas"@[1] == 'a');
    reveal_strlit("svg");
    assert("svg"@.len() == 3);
    assert("svg"@[0] == 's');
    assert("svg"@[1] == 'v');
    reveal_strlit("scrollview");
    assert("scrollview"@.len() == 10);
    assert("scrollview"@[0] == 's');
    assert("scrollview"@[1] == 'c');
    reveal_strlit("list");
    assert("list"@.len() == 4);
    assert("list"@[0] == 'l');
    assert("list"@[1] == 'i');
    reveal_strlit("grid");
    assert("grid"@.len() == 4);
    assert("grid"@[0] == 'g');
    assert("grid"@[1] == 'r');
    reveal_strlit("input");
    assert("input"@.len() == 5);
    assert("input"@[0] == 'i');
    assert("input"@[1] == 'n');
    reveal_strlit("viewport3d");
    assert("viewport3d"@.len() == 10);
    assert("viewport3d"@[0] == 'v');
    assert("viewport3d"@[1] == 'i');
    reveal_strlit("stack");
    assert("stack"@.len() == 5);
    assert("stack"@[0] == 's');
    assert("stack"@[1] == 't');
    reveal_strlit("row");
    assert("row"@.len() == 3);
    assert("row"@[0] == 'r');
    assert("row"@[1] == 'o');
    reveal_strlit("column");
    assert("column"@.len() == 6);
    assert("column"@[0] == 'c');
    assert("column"@[1] == 'o');
}

/// What the lookups of the decoder find in the node of a component: its
/// type, its id, its properties, and its children if it is a container.
pub proof fn lemma_head_lookup(c: ComponentView)
    ensures
        encode_node(c).field("type"@) == JsonView::Str(c.tag()),
        encode_node(c).field("id"@) == JsonView::Str(c.id()),
        encode_node(c).get("props"@) == Some(JsonView::Object(props_of(c))),
        props_shape_ok(encode_node(c)),
        is_leaf(c) ==> encode_node(c).get("children"@) is None,
        !is_leaf(c) ==> encode_node(c).get("children"@) == Some(
            JsonView::Array(encode_nodes(c.children())),
        ),
{
    reveal_strlit("id");
    assert("id"@.len() == 2);
    reveal_strlit("type");
    assert("type"@.len() == 4);
    reveal_strlit("props");
    assert("props"@.len() == 5);
    reveal_strlit("children");
    assert("children"@.len() == 8);
    let head = head_of(c);
    if is_leaf(c) {
        assert(encode_node(c) == JsonView::Object(head));
        lemma_lookup_at(head, "id"@, 0);
        lemma_lookup_at(head, "type"@, 1);
        lemma_lookup_at(head, "props"@, 2);
        lemma_lookup_none(head, "children"@);
    } else {
        let members = head.push(field("children"@, JsonView::Array(encode_nodes(c.children()))));
        assert(encode_node(c) == JsonView::Object(members));
        lemma_lookup_at(members, "id"@, 0);
        lemma_lookup_at(members, "type"@, 1);
        lemma_lookup_at(members, "props"@, 2);
        lemma_lookup_at(members, "children"@, 3);
    }
}

/// Whether a component, its children apart, is one that decoding can
/// yield: it has an id; a button has a style sheet without a repeated key;
/// and the vectors of a camera have three coordinates.
pub open spec fn tidy(c: ComponentView) -> bool {
    &&& c.id().len() > 0
    &&& match c {
        ComponentView::Button(p) => p.style matches Some(entries) && keys_distinct(entries),
        ComponentView::Viewport3D(p) => p.camera matches Some(camera) ==> camera.position.len()
            == 3 && camera.target.len() == 3,
        _ => true,
    }
}

/// Binding a key that no entry has appends an entry.
pub proof fn lemma_put_new(entries: Seq<EntryView>, key: Seq<char>, value: Seq<char>)
    requires
        forall|j: int| 0 <= j < entries.len() ==> (#[trigger] entries[j]).key != key,
    ensures
        style_put(entries, key, value) == entries.push(EntryView { key, value }),
    decreases entries.len(),
{
    if entries.len() > 0 {
        let rest = entries.drop_first();
        assert forall|j: int| 0 <= j < rest.len() implies (#[trigger] rest[j]).key != key by {
            assert(rest[j] == entries[j + 1]);
        }
        lemma_put_new(rest, key, value);
        assert(seq![entries[0]] + rest.push(EntryView { key, value }) =~= entries.push(
            EntryView { key, value },
        ));
    } else {
        assert(seq![EntryView { key, value }] =~= entries.push(EntryView { key, value }));
    }
}

/// A style sheet without a repeated key is read back as it was written.
pub proof fn lemma_style_back(entries: Seq<EntryView>)
    requires
        keys_distinct(entries),
    ensures
        style_of(style_members(entries)) == entries,
    decreases entries.len(),
{
    if entries.len() > 0 {
        let front = entries.drop_last();
        assert(keys_distinct(front)) by {
            assert forall|i: int, j: int| 0 <= i < j < front.len() implies (#[trigger] front[i]).key
                != (#[trigger] front[j]).key by {
                assert(front[i] == entries[i]);
                assert(front[j] == entries[j]);
            }
        }
        lemma_style_back(front);
        assert(style_members(entries).drop_last() =~= style_members(front));
        assert forall|j: int| 0 <= j < front.len() implies (#[trigger] front[j]).key
            != entries.last().key by {
            assert(front[j] == entries[j]);
            assert(entries.last() == entries[entries.len() - 1]);
        }
        lemma_put_new(front, entries.last().key, entries.last().value);
        assert(front.push(entries.last()) =~= entries);
    } else {
        assert(style_members(entries) =~= Seq::empty());
        assert(entries =~= Seq::empty());
    }
}

/// A vector of three coordinates is read back as it was written, whatever
/// the defaults.
pub proof fn lemma_vector_back(camera: JsonView, key: Seq<char>, v: Seq<Number>, d0: u64, d1: u64, d2: u64)
    requires
        v.len() == 3,
        camera.get(key) == Some(vector(v)),
    ensures
        camera_vector(camera, key, d0, d1, d2) == v,
{
    assert(camera_vector(camera, key, d0, d1, d2) =~= v);
}

proof fn lemma_props_back_window(c: ComponentView)
    requires
        c is Window,
        tidy(c),
    ensures
        assemble(c.tag(), c.id(), Some(JsonView::Object(props_of(c))), c.children()) == c,
{
    lemma_tag_of(c);
    let p = c->Window_0;
    let members = props_of(c);
    reveal_strlit("title");
    assert("title"@.len() == 5);
    assert("title"@[0] == 't');
    assert("title"@[1] == 'i');
    assert("title"@[3] == 'l');
    reveal_strlit("width");
    assert("width"@.len() == 5);
    assert("width"@[0] == 'w');
    assert("width"@[1] == 'i');
    assert("width"@[3] == 't');
    reveal_strlit("height");
    assert("height"@.len() == 6);
    assert("height"@[0] == 'h');
    assert("height"@[1] == 'e');
    assert("height"@[3] == 'g');
    reveal_strlit("x");
    assert("x"@.len() == 1);
    assert("x"@[0] == 'x');
    reveal_strlit("y");
    assert("y"@.len() == 1);
    assert("y"@[0] == 'y');
    reveal_strlit("resizable");
    assert("resizable"@.len() == 9);
    assert("resizable"@[0] == 'r');
    assert("resizable"@[1] == 'e');
    assert("resizable"@[3] == 'i');
    reveal_strlit("draggable");
    assert("draggable"@.len() == 9);
    assert("draggable"@[0] == 'd');
    assert("draggable"@[1] == 'r');
    assert("draggable"@[3] == 'g');
    lemma_lookup_at(members, "title"@, 0);
    lemma_lookup_at(members, "width"@, 1);
    lemma_lookup_at(members, "height"@, 2);
    lemma_lookup_at(members, "x"@, 3);
    lemma_lookup_at(members, "y"@, 4);
    lemma_lookup_at(members, "resizable"@, 5);
    lemma_lookup_at(members, "draggable"@, 6);
}

proof fn lemma_props_back_button(c: ComponentView)
    requires
        c is Button,
        tidy(c),
    ensures
        assemble(c.tag(), c.id(), Some(JsonView::Object(props_of(c))), c.children()) == c,
{
    lemma_tag_of(c);
    let p = c->Button_0;
    let members = props_of(c);
    reveal_strlit("text");
    assert("text"@.len() == 4);
    assert("text"@[0] == 't');
    assert("text"@[1] == 'e');
    assert("text"@[3] == 't');
    reveal_strlit("width");
    assert("width"@.len() == 5);
    assert("width"@[0] == 'w');
    assert("width"@[1] == 'i');
    assert("width"@[3] == 't');
    reveal_strlit("height");
    assert("height"@.len() == 6);
    assert("height"@[0] == 'h');
    assert("height"@[1] == 'e');
    assert("height"@[3] == 'g');
    reveal_strlit("on_click");
    assert("on_click"@.len() == 8);
    assert("on_click"@[0] == 'o');
    assert("on_click"@[1] == 'n');
    assert("on_click"@[3] == 'c');
    reveal_strlit("icon");
    assert("icon"@.len() == 4);
    assert("icon"@[0] == 'i');
    assert("icon"@[1] == 'c');
    assert("icon"@[3] == 'n');
    reveal_strlit("style");
    assert("style"@.len() == 5);
    assert("style"@[0] == 's');
    assert("style"@[1] == 't');
    assert("style"@[3] == 'l');
    lemma_lookup_at(members, "text"@, 0);
    lemma_lookup_at(members, "width"@, 1);
    lemma_lookup_at(members, "height"@, 2);
    lemma_lookup_at(members, "on_click"@, 3);
    lemma_lookup_at(members, "icon"@, 4);
    lemma_lookup_at(members, "style"@, 5);
    lemma_style_back(p.style->0);
}

proof fn lemma_props_back_text(c: ComponentView)
    requires
        c is Text,
        tidy(c),
    ensures
        assemble(c.tag(), c.id(), Some(JsonView::Object(props_of(c))), c.children()) == c,
{
    lemma_tag_of(c);
    let p = c->Text_0;
    let members = props_of(c);
    reveal_strlit("content");
    assert("content"@.len() == 7);
    assert("content"@[0] == 'c');
    assert("content"@[1] == 'o');
    assert("content"@[3] == 't');
    reveal_strlit("size");
    assert("size"@.len() == 4);
    assert("size"@[0] == 's');
    assert("size"@[1] == 'i');
    assert("size"@[3] == 'e');
    reveal_strlit("color");
    assert("color"@.len() == 5);
    assert("color"@[0] == 'c');
    assert("color"@[1] == 'o');
    assert("color"@[3] == 'o');
    reveal_strlit("align");
    assert("align"@.len() == 5);
    assert("align"@[0] == 'a');
    assert("align"@[1] == 'l');
    assert("align"@[3] == 'g');
    reveal_strlit("font");
    assert("font"@.len() == 4);
    assert("font"@[0] == 'f');
    assert("font"@[1] == 'o');
    assert("font"@[3] == 't');
    lemma_lookup_at(members, "content"@, 0);
    lemma_lookup_at(members, "size"@, 1);
    lemma_lookup_at(members, "color"@, 2);
    lemma_lookup_at(members, "align"@, 3);
    lemma_lookup_at(members, "font"@, 4);
}

proof fn lemma_props_back_image(c: ComponentView)
    requires
        c is Image,
        tidy(c),
    ensures
        assemble(c.tag(), c.id(), Some(JsonView::Object(props_of(c))), c.children()) == c,
{
    lemma_tag_of(c);
    let p = c->Image_0;
    let members = props_of(c);
    reveal_strlit("source");
    assert("source"@.len() == 6);
    assert("source"@[0] == 's');
    assert("source"@[1] == 'o');
    assert("source"@[3] == 'r');
    reveal_strlit("width");
    assert("width"@.len() == 5);
    assert("width"@[0] == 'w');
    assert("width"@[1] == 'i');
    assert("width"@[3] == 't');
    reveal_strlit("height");
    assert("height"@.len() == 6);
    assert("height"@[0] == 'h');
    assert("height"@[1] == 'e');
    assert("height"@[3] == 'g');
    reveal_strlit("scale");
    assert("scale"@.len() == 5);
    assert("scale"@[0] == 's');
    assert("scale"@[1] == 'c');
    assert("scale"@[3] == 'l');
    lemma_lookup_at(members, "source"@, 0);
    lemma_lookup_at(members, "width"@, 1);
    lemma_lookup_at(members, "height"@, 2);
    lemma_lookup_at(members, "scale"@, 3);
}

proof fn lemma_props_back_canvas(c: ComponentView)
    requires
        c is Canvas,
        tidy(c),
    ensures
        assemble(c.tag(), c.id(), Some(JsonView::Object(props_of(c))), c.children()) == c,
{
    lemma_tag_of(c);
    let p = c->Canvas_0;
    let members = props_of(c);
    reveal_strlit("width");
    assert("width"@.len() == 5);
    assert("width"@[0] == 'w');
    assert("width"@[1] == 'i');
    assert("width"@[3] == 't');
    reveal_strlit("height");
    assert("height"@.len() == 6);
    assert("height"@[0] == 'h');
    assert("height"@[1] == 'e');
    assert("height"@[3] == 'g');
    reveal_strlit("on_draw");
    assert("on_draw"@.len() == 7);
    assert("on_draw"@[0] == 'o');
    assert("on_draw"@[1] == 'n');
    assert("on_draw"@[3] == 'd');
    reveal_strlit("on_click");
    assert("on_click"@.len() == 8);
    assert("on_click"@[0] == 'o');
    assert("on_click"@[1] == 'n');
    assert("on_click"@[3] == 'c');
    lemma_lookup_at(members, "width"@, 0);
    lemma_lookup_at(members, "height"@, 1);
    lemma_lookup_at(members, "on_draw"@, 2);
    lemma_lookup_at(members, "on_click"@, 3);
}

proof fn lemma_props_back_svg(c: ComponentView)
    requires
        c is SVG,
        tidy(c),
    ensures
        assemble(c.tag(), c.id(), Some(JsonView::Object(props_of(c))), c.children()) == c,
{
    lemma_tag_of(c);
    let p = c->SVG_0;
    let members = props_of(c);
    reveal_strlit("source");
    assert("source"@.len() == 6);
    assert("source"@[0] == 's');
    assert("source"@[1] == 'o');
    assert("source"@[3] == 'r');
    reveal_strlit("width");
    assert("width"@.len() == 5);
    assert("width"@[0] == 'w');
    assert("width"@[1] == 'i');
    assert("width"@[3] == 't');
    reveal_strlit("height");
    assert("height"@.len() == 6);
    assert("height"@[0] == 'h');
    assert("height"@[1] == 'e');
    assert("height"@[3] == 'g');
    lemma_lookup_at(members, "source"@, 0);
    lemma_lookup_at(members, "width"@, 1);
    lemma_lookup_at(members, "height"@, 2);
}

proof fn lemma_props_back_scrollview(c: ComponentView)
    requires
        c is ScrollView,
        tidy(c),
    ensures
        assemble(c.tag(), c.id(), Some(JsonView::Object(props_of(c))), c.children()) == c,
{
    lemma_tag_of(c);
    let p = c->ScrollView_0;
    let members = props_of(c);
    reveal_strlit("width");
    assert("width"@.len() == 5);
    assert("width"@[0] == 'w');
    assert("width"@[1] == 'i');
    assert("width"@[3] == 't');
    reveal_strlit("height");
    assert("height"@.len() == 6);
    assert("height"@[0] == 'h');
    assert("height"@[1] == 'e');
    assert("height"@[3] == 'g');
    lemma_lookup_at(members, "width"@, 0);
    lemma_lookup_at(members, "height"@, 1);
}

proof fn lemma_props_back_list(c: ComponentView)
    requires
        c is List,
        tidy(c),
    ensures
        assemble(c.tag(), c.id(), Some(JsonView::Object(props_of(c))), c.children()) == c,
{
    lemma_tag_of(c);
    let p = c->List_0;
    let members = props_of(c);
    reveal_strlit("direction");
    assert("direction"@.len() == 9);
    assert("direction"@[0] == 'd');
    assert("direction"@[1] == 'i');
    assert("direction"@[3] == 'e');
    reveal_strlit("spacing");
    assert("spacing"@.len() == 7);
    assert("spacing"@[0] == 's');
    assert("spacing"@[1] == 'p');
    assert("spacing"@[3] == 'c');
    lemma_lookup_at(members, "direction"@, 0);
    lemma_lookup_at(members, "spacing"@, 1);
}

proof fn lemma_props_back_grid(c: ComponentView)
    requires
        c is Grid,
        tidy(c),
    ensures
        assemble(c.tag(), c.id(), Some(JsonView::Object(props_of(c))), c.children()) == c,
{
    lemma_tag_of(c);
    let p = c->Grid_0;
    let members = props_of(c);
    reveal_strlit("columns");
    assert("columns"@.len() == 7);
    assert("columns"@[0] == 'c');
    assert("columns"@[1] == 'o');
    assert("columns"@[3] == 'u');
    reveal_strlit("rows");
    assert("rows"@.len() == 4);
    assert("rows"@[0] == 'r');
    assert("rows"@[1] == 'o');
    assert("rows"@[3] == 's');
    reveal_strlit("spacing");
    assert("spacing"@.len() == 7);
    assert("spacing"@[0] == 's');
    assert("spacing"@[1] == 'p');
    assert("spacing"@[3] == 'c');
    lemma_lookup_at(members, "columns"@, 0);
    lemma_lookup_at(members, "rows"@, 1);
    lemma_lookup_at(members, "spacing"@, 2);
}

proof fn lemma_props_back_input(c: ComponentView)
    requires
        c is Input,
        tidy(c),
    ensures
        assemble(c.tag(), c.id(), Some(JsonView::Object(props_of(c))), c.children()) == c,
{
    lemma_tag_of(c);
    let p = c->Input_0;
    let members = props_of(c);
    reveal_strlit("placeholder");
    assert("placeholder"@.len() == 11);
    assert("placeholder"@[0] == 'p');
    assert("placeholder"@[1] == 'l');
    assert("placeholder"@[3] == 'c');
    reveal_strlit("value");
    assert("value"@.len() == 5);
    assert("value"@[0] == 'v');
    assert("value"@[1] == 'a');
    assert("value"@[3] == 'u');
    reveal_strlit("width");
    assert("width"@.len() == 5);
    assert("width"@[0] == 'w');
    assert("width"@[1] == 'i');
    assert("width"@[3] == 't');
    reveal_strlit("on_change");
    assert("on_change"@.len() == 9);
    assert("on_change"@[0] == 'o');
    assert("on_change"@[1] == 'n');
    assert("on_change"@[3] == 'c');
    reveal_strlit("on_submit");
    assert("on_submit"@.len() == 9);
    assert("on_submit"@[0] == 'o');
    assert("on_submit"@[1] == 'n');
    assert("on_submit"@[3] == 's');
    lemma_lookup_at(members, "placeholder"@, 0);
    lemma_lookup_at(members, "value"@, 1);
    lemma_lookup_at(members, "width"@, 2);
    lemma_lookup_at(members, "on_change"@, 3);
    lemma_lookup_at(members, "on_submit"@, 4);
}

proof fn lemma_props_back_viewport3d(c: ComponentView)
    requires
        c is Viewport3D,
        tidy(c),
    ensures
        assemble(c.tag(), c.id(), Some(JsonView::Object(props_of(c))), c.children()) == c,
{
    lemma_tag_of(c);
    let p = c->Viewport3D_0;
    let members = props_of(c);
    reveal_strlit("width");
    assert("width"@.len() == 5);
    assert("width"@[0] == 'w');
    assert("width"@[1] == 'i');
    assert("width"@[3] == 't');
    reveal_strlit("height");
    assert("height"@.len() == 6);
    assert("height"@[0] == 'h');
    assert("height"@[1] == 'e');
    assert("height"@[3] == 'g');
    reveal_strlit("scene");
    assert("scene"@.len() == 5);
    assert("scene"@[0] == 's');
    assert("scene"@[1] == 'c');
    assert("scene"@[3] == 'n');
    reveal_strlit("camera");
    assert("camera"@.len() == 6);
    assert("camera"@[0] == 'c');
    assert("camera"@[1] == 'a');
    assert("camera"@[3] == 'e');
    reveal_strlit("position");
    assert("position"@.len() == 8);
    assert("position"@[0] == 'p');
    assert("position"@[1] == 'o');
    assert("position"@[3] == 'i');
    reveal_strlit("target");
    assert("target"@.len() == 6);
    assert("target"@[0] == 't');
    assert("target"@[1] == 'a');
    assert("target"@[3] == 'g');
    lemma_lookup_at(members, "width"@, 0);
    lemma_lookup_at(members, "height"@, 1);
    lemma_lookup_at(members, "scene"@, 2);
    match p.camera {
        Some(camera) => {
            lemma_lookup_at(members, "camera"@, 3);
            let written = camera_value(camera);
            lemma_lookup_at(written->Object_0, "position"@, 0);
            lemma_lookup_at(written->Object_0, "target"@, 1);
            lemma_vector_back(written, "position"@, camera.position, 0, 5, 10);
            lemma_vector_back(written, "target"@, camera.target, 0, 0, 0);
        },
        None => {
            lemma_lookup_none(members, "camera"@);
        },
    }
}

proof fn lemma_props_back_stack(c: ComponentView)
    requires
        c is Stack,
        tidy(c),
    ensures
        assemble(c.tag(), c.id(), Some(JsonView::Object(props_of(c))), c.children()) == c,
{
    lemma_tag_of(c);
    let p = c->Stack_0;
    let members = props_of(c);
}

proof fn lemma_props_back_row(c: ComponentView)
    requires
        c is Row,
        tidy(c),
    ensures
        assemble(c.tag(), c.id(), Some(JsonView::Object(props_of(c))), c.children()) == c,
{
    lemma_tag_of(c);
    let p = c->Row_0;
    let members = props_of(c);
    reveal_strlit("spacing");
    assert("spacing"@.len() == 7);
    assert("spacing"@[0] == 's');
    assert("spacing"@[1] == 'p');
    assert("spacing"@[3] == 'c');
    reveal_strlit("align");
    assert("align"@.len() == 5);
    assert("align"@[0] == 'a');
    assert("align"@[1] == 'l');
    assert("align"@[3] == 'g');
    lemma_lookup_at(members, "spacing"@, 0);
    lemma_lookup_at(members, "align"@, 1);
}

proof fn lemma_props_back_column(c: ComponentView)
    requires
        c is Column,
        tidy(c),
    ensures
        assemble(c.tag(), c.id(), Some(JsonView::Object(props_of(c))), c.children()) == c,
{
    lemma_tag_of(c);
    let p = c->Column_0;
    let members = props_of(c);
    reveal_strlit("spacing");
    assert("spacing"@.len() == 7);
    assert("spacing"@[0] == 's');
    assert("spacing"@[1] == 'p');
    assert("spacing"@[3] == 'c');
    reveal_strlit("align");
    assert("align"@.len() == 5);
    assert("align"@[0] == 'a');
    assert("align"@[1] == 'l');
    assert("align"@[3] == 'g');
    lemma_lookup_at(members, "spacing"@, 0);
    lemma_lookup_at(members, "align"@, 1);
}

/// The properties of a tidy component are read back as they were written:
/// assembled from its tag, its id, its written properties and its children,
/// the component is itself again.
pub proof fn lemma_props_back(c: ComponentView)
    requires
        tidy(c),
    ensures
        assemble(c.tag(), c.id(), Some(JsonView::Object(props_of(c))), c.children()) == c,
{
    match c {
        ComponentView::Window(_) => lemma_props_back_window(c),
        ComponentView::Button(_) => lemma_props_back_button(c),
        ComponentView::Text(_) => lemma_props_back_text(c),
        ComponentView::Image(_) => lemma_props_back_image(c),
        ComponentView::Canvas(_) => lemma_props_back_canvas(c),
        ComponentView::SVG(_) => lemma_props_back_svg(c),
        ComponentView::ScrollView(_) => lemma_props_back_scrollview(c),
        ComponentView::List(_) => lemma_props_back_list(c),
        ComponentView::Grid(_) => lemma_props_back_grid(c),
        ComponentView::Input(_) => lemma_props_back_input(c),
        ComponentView::Viewport3D(_) => lemma_props_back_viewport3d(c),
        ComponentView::Stack(_) => lemma_props_back_stack(c),
        ComponentView::Row(_) => lemma_props_back_row(c),
        ComponentView::Column(_) => lemma_props_back_column(c),
    }
}

/// Whether a component is one that decoding can yield: it is tidy, and so
/// is every component below it.
pub open spec fn canonical(c: ComponentView) -> bool
    decreases c, 0nat,
{
    &&& tidy(c)
    &&& match c {
        ComponentView::Window(p) => all_canonical(p.children, 0),
        ComponentView::ScrollView(p) => all_canonical(p.children, 0),
        ComponentView::List(p) => all_canonical(p.items, 0),
        ComponentView::Grid(p) => all_canonical(p.items, 0),
        ComponentView::Stack(p) => all_canonical(p.children, 0),
        ComponentView::Row(p) => all_canonical(p.children, 0),
        ComponentView::Column(p) => all_canonical(p.children, 0),
        _ => true,
    }
}

/// Whether the components `from..` of `s` are all canonical.
pub open spec fn all_canonical(s: Seq<ComponentView>, from: int) -> bool
    decreases s, s.len() - from,
{
    if 0 <= from < s.len() {
        canonical(s[from]) && all_canonical(s, from + 1)
    } else {
        true
    }
}

/// All components are canonical exactly if each is.
pub proof fn lemma_all_canonical(s: Seq<ComponentView>, from: int)
    requires
        0 <= from,
    ensures
        all_canonical(s, from) <==> forall|i: int| from <= i < s.len() ==> canonical(#[trigger] s[i]),
    decreases s.len() - from,
{
    if from < s.len() {
        lemma_all_canonical(s, from + 1);
    }
}

/// A canonical component has canonical children.
pub proof fn lemma_canonical_children(c: ComponentView)
    requires
        canonical(c),
    ensures
        all_canonical(c.children(), 0),
{
}

/// Decoding undoes encoding: the node that a canonical component is
/// written as decodes to the component.
pub proof fn decode_inverts_encode(c: ComponentView)
    requires
        canonical(c),
    ensures
        decode_node(encode_node(c)) == Ok::<ComponentView, DecodeErrorView>(c),
    decreases c, 0nat,
{
    lemma_head_lookup(c);
    lemma_tag_of(c);
    lemma_props_back(c);
    let node = encode_node(c);
    if is_leaf(c) {
        assert(decode_children(node) == Ok::<Seq<ComponentView>, DecodeErrorView>(Seq::empty()));
        assert(c.children() =~= Seq::empty());
    } else {
        lemma_canonical_children(c);
        match c {
            ComponentView::Window(p) => decode_inverts_encode_all(p.children),
            ComponentView::ScrollView(p) => decode_inverts_encode_all(p.children),
            ComponentView::List(p) => decode_inverts_encode_all(p.items),
            ComponentView::Grid(p) => decode_inverts_encode_all(p.items),
            ComponentView::Stack(p) => decode_inverts_encode_all(p.children),
            ComponentView::Row(p) => decode_inverts_encode_all(p.children),
            ComponentView::Column(p) => decode_inverts_encode_all(p.children),
            _ => {},
        }
        assert(decode_children(node) == Ok::<Seq<ComponentView>, DecodeErrorView>(c.children()));
    }
}

/// Decoding undoes encoding for a whole forest.
pub proof fn decode_inverts_encode_all(s: Seq<ComponentView>)
    requires
        all_canonical(s, 0),
    ensures
        decode_nodes(encode_nodes(s)) == Ok::<Seq<ComponentView>, DecodeErrorView>(s),
    decreases s, 1nat,
{
    if s.len() > 0 {
        lemma_all_canonical(s, 0);
        lemma_all_canonical(s.drop_last(), 0);
        assert forall|i: int| 0 <= i < s.drop_last().len() implies canonical(
            #[trigger] s.drop_last()[i],
        ) by {
            assert(s.drop_last()[i] == s[i]);
        }
        decode_inverts_encode_all(s.drop_last());
        assert(canonical(s[s.len() - 1]));
        decode_inverts_encode(s.last());
        assert(encode_nodes(s).drop_last() =~= encode_nodes(s.drop_last()));
        assert(s.drop_last().push(s.last()) =~= s);
    } else {
        assert(s =~= Seq::empty());
    }
}

/// Binding a key in a style sheet without a repeated key leaves it without
/// one: the entries keep their keys and their places, and at most one
/// entry, with the bound key, is added at the end.
pub proof fn lemma_put_distinct(entries: Seq<EntryView>, key: Seq<char>, value: Seq<char>)
    requires
        keys_distinct(entries),
    ensures
        keys_distinct(style_put(entries, key, value)),
        entries.len() <= style_put(entries, key, value).len() <= entries.len() + 1,
        forall|i: int|
            0 <= i < entries.len() ==> (#[trigger] style_put(entries, key, value)[i]).key
                == entries[i].key,
        style_put(entries, key, value).len() == entries.len() + 1 ==> style_put(
            entries,
            key,
            value,
        ).last().key == key,
    decreases entries.len(),
{
    let after = style_put(entries, key, value);
    if entries.len() == 0 {
    } else if entries[0].key == key {
    } else {
        let rest = entries.drop_first();
        assert(keys_distinct(rest)) by {
            assert forall|i: int, j: int| 0 <= i < j < rest.len() implies (#[trigger] rest[i]).key
                != (#[trigger] rest[j]).key by {
                assert(rest[i] == entries[i + 1]);
                assert(rest[j] == entries[j + 1]);
            }
        }
        lemma_put_distinct(rest, key, value);
        let tail = style_put(rest, key, value);
        assert(after == seq![entries[0]] + tail);
        assert forall|i: int| 0 <= i < entries.len() implies (#[trigger] after[i]).key
            == entries[i].key by {
            if i > 0 {
                assert(after[i] == tail[i - 1]);
                assert(rest[i - 1] == entries[i]);
            }
        }
        assert forall|i: int, j: int| 0 <= i < j < after.len() implies (#[trigger] after[i]).key
            != (#[trigger] after[j]).key by {
            assert(after[j] == tail[j - 1]);
            if i == 0 {
                if j - 1 < rest.len() {
                    assert(tail[j - 1].key == rest[j - 1].key);
                    assert(rest[j - 1] == entries[j]);
                } else {
                    assert(tail[j - 1] == tail.last());
                }
            } else {
                assert(after[i] == tail[i - 1]);
            }
        }
    }
}

/// The style sheet read from an object has no repeated key.
pub proof fn lemma_style_distinct(members: Seq<MemberView>)
    ensures
        keys_distinct(style_of(members)),
    decreases members.len(),
{
    if members.len() > 0 {
        lemma_style_distinct(members.drop_last());
        match members.last().value {
            JsonView::Str(value) => {
                lemma_put_distinct(style_of(members.drop_last()), members.last().key, value);
            },
            _ => {},
        }
    }
}

/// Whatever is assembled from an id that is not empty and from canonical
/// children is canonical.
pub proof fn lemma_assembled_canonical(
    tag: Seq<char>,
    id: Seq<char>,
    props: Option<JsonView>,
    children: Seq<ComponentView>,
)
    requires
        id.len() > 0,
        all_canonical(children, 0),
    ensures
        canonical(assemble(tag, id, props, children)),
{
    let c = assemble(tag, id, props, children);
    match c {
        ComponentView::Button(p) => {
            match prop(props, "style"@) {
                Some(JsonView::Object(members)) => lemma_style_distinct(members),
                _ => {},
            }
        },
        _ => {},
    }
}

/// What decodes, decodes to a canonical component.
pub proof fn decoded_is_canonical(node: JsonView)
    requires
        decode_node(node) is Ok,
    ensures
        canonical(decode_node(node)->Ok_0),
    decreases node, 1nat,
{
    let tag = node.field("type"@).str_value()->0;
    let id = node.field("id"@).str_value()->0;
    let children = decode_children(node)->Ok_0;
    match node {
        JsonView::Object(members) => match member_lookup(members, "children"@) {
            Some(JsonView::Array(items)) => {
                lemma_lookup_decreases(members, "children"@);
                decoded_all_canonical(items);
            },
            _ => {},
        },
        _ => {},
    }
    lemma_assembled_canonical(tag, id, node.get("props"@), children);
}

/// What decodes, decodes to canonical components.
pub proof fn decoded_all_canonical(nodes: Seq<JsonView>)
    requires
        decode_nodes(nodes) is Ok,
    ensures
        all_canonical(decode_nodes(nodes)->Ok_0, 0),
    decreases nodes, 2nat,
{
    let decoded = decode_nodes(nodes)->Ok_0;
    lemma_all_canonical(decoded, 0);
    if nodes.len() > 0 {
        decoded_all_canonical(nodes.drop_last());
        decoded_is_canonical(nodes.last());
        let front = decode_nodes(nodes.drop_last())->Ok_0;
        lemma_all_canonical(front, 0);
        assert forall|i: int| 0 <= i < decoded.len() implies canonical(#[trigger] decoded[i]) by {
            if i < front.len() {
                assert(decoded[i] == front[i]);
            }
        }
    }
}

/// Decoding is stable: the tree that a payload decodes to, written out
/// again, decodes to the same tree.
pub proof fn decoding_is_stable(payload: Seq<JsonView>)
    requires
        decode_nodes(payload) is Ok,
    ensures
        decode_nodes(encode_nodes(decode_nodes(payload)->Ok_0)) == decode_nodes(payload),
{
    decoded_all_canonical(payload);
    decode_inverts_encode_all(decode_nodes(payload)->Ok_0);
}

} // verus!
