use ui_dsl::dsl::parser::DSLParser;
use ui_dsl::json::Number;
use ui_dsl::ui::builder::model::BuildError;
use ui_dsl::ui::builder::UIBuilder;
use ui_dsl::ui::components::{
    CameraProps, EventCallback, GridProps, StackProps, TextProps, UIComponent, UIElement,
};
use ui_dsl::ui::native::{Direction, Justify, NativeNode, NodeKind, TextAlign};

fn tree(text: &str) -> Vec<UIComponent> {
    DSLParser::new().parse_components_json(text).unwrap()
}

fn built(text: &str) -> UIBuilder {
    let mut builder = UIBuilder::new();
    builder.build_ui(&tree(text));
    builder
}

fn node(builder: &UIBuilder, h: usize) -> &NativeNode {
    builder.node(h).unwrap()
}

fn label(id: &str) -> UIComponent {
    UIComponent::Text(TextProps {
        id: id.to_string(),
        content: id.to_string(),
        size: None,
        color: None,
        align: None,
        font: None,
    })
}

fn grid(id: &str, columns: usize, items: Vec<UIComponent>) -> UIComponent {
    UIComponent::Grid(GridProps { id: id.to_string(), columns, rows: None, items, spacing: None })
}

fn element(id: &str, kind: &str) -> Option<UIElement> {
    Some(UIElement { id: id.to_string(), component_type: kind.to_string() })
}

fn binding(event: &str, function: &str) -> EventCallback {
    EventCallback { event_type: event.to_string(), callback: function.to_string() }
}

#[test]
fn a_new_builder_is_empty() {
    let builder = UIBuilder::new();
    assert_eq!(builder.node_count(), 0);
    assert!(builder.roots().is_empty());
    assert!(builder.failures().is_empty());
    assert!(!builder.is_bridged());
    assert_eq!(builder.lookup("anything"), None);
    assert!(builder.node(0).is_none());
    assert!(!builder.is_live(0));
    assert!(builder.parent_exists(None));
    assert!(!builder.parent_exists(Some(0)));
}

#[test]
fn a_window_is_a_frame_with_title_bar_and_content() {
    let builder = built(
        "[{\"type\":\"window\",\"id\":\"w\",\"props\":{\"title\":\"Main\",\"x\":5,\
         \"draggable\":false},\"children\":[{\"type\":\"text\",\"id\":\"t\"},\
         {\"type\":\"button\",\"id\":\"b\"}]}]",
    );
    assert_eq!(builder.roots(), &vec![0]);
    assert_eq!(builder.lookup("w"), Some(0));
    let frame = node(&builder, 0);
    assert_eq!(frame.kind, NodeKind::Window);
    assert_eq!(frame.element, element("w", "window"));
    assert_eq!(frame.parent, None);
    assert_eq!(frame.children, vec![1, 5]);
    assert_eq!(frame.left, Some(Number::PosInt(5)));
    assert_eq!(frame.top, None);
    assert_eq!(frame.width, Some(Number::PosInt(400)));
    assert_eq!(frame.height, Some(Number::PosInt(300)));
    assert!(!frame.draggable);
    assert!(frame.resizable);
    assert!(frame.visible);
    let header = node(&builder, 1);
    assert_eq!(header.kind, NodeKind::WindowHeader);
    assert_eq!(header.parent, Some(0));
    assert_eq!(header.children, vec![2, 3]);
    assert_eq!(header.element, None);
    let title = node(&builder, 2);
    assert_eq!(title.kind, NodeKind::WindowTitle);
    assert_eq!(title.text, Some("Main".to_string()));
    assert_eq!(title.parent, Some(1));
    let close = node(&builder, 3);
    assert_eq!(close.kind, NodeKind::CloseButton);
    assert_eq!(close.callbacks, vec![binding("click", "close_window")]);
    assert!(frame.callbacks.is_empty());
    assert_eq!(frame.min_width, Some(Number::PosInt(100)));
    assert_eq!(frame.min_height, Some(Number::PosInt(50)));
    assert_eq!(header.min_width, None);
    assert_eq!(close.children, vec![4]);
    let glyph = node(&builder, 4);
    assert_eq!(glyph.kind, NodeKind::CloseLabel);
    assert_eq!(glyph.text, Some("X".to_string()));
    assert_eq!(glyph.parent, Some(3));
    let content = node(&builder, 5);
    assert_eq!(content.kind, NodeKind::WindowContent);
    assert_eq!(content.parent, Some(0));
    assert_eq!(content.children, vec![6, 7]);
    assert_eq!(builder.lookup("t"), Some(6));
    assert_eq!(builder.lookup("b"), Some(7));
    assert_eq!(node(&builder, 6).parent, Some(5));
    assert_eq!(node(&builder, 7).parent, Some(5));
    assert_eq!(builder.node_count(), 9);
    assert!(builder.failures().is_empty());
}

#[test]
fn a_parent_is_created_and_registered_before_its_children() {
    let builder = built(
        "[{\"type\":\"column\",\"id\":\"c\",\"children\":[{\"type\":\"row\",\"id\":\"r\",\
         \"children\":[{\"type\":\"text\",\"id\":\"t\"}]},{\"type\":\"text\",\"id\":\"u\"}]}]",
    );
    let c = builder.lookup("c").unwrap();
    let r = builder.lookup("r").unwrap();
    let t = builder.lookup("t").unwrap();
    let u = builder.lookup("u").unwrap();
    assert!(c < r && r < t && t < u);
    assert_eq!(node(&builder, c).children, vec![r, u]);
    assert_eq!(node(&builder, r).children, vec![t]);
    assert_eq!(node(&builder, t).parent, Some(r));
    assert_eq!(node(&builder, u).parent, Some(c));
}

#[test]
fn a_button_has_a_label_and_maybe_an_icon() {
    let builder = built(
        "[{\"type\":\"button\",\"id\":\"a\",\"props\":{\"text\":\"Go\",\"on_click\":\"go\",\
         \"icon\":\"go.png\",\"width\":80}},{\"type\":\"button\",\"id\":\"b\"}]",
    );
    assert_eq!(builder.roots(), &vec![0, 3]);
    let a = node(&builder, 0);
    assert_eq!(a.kind, NodeKind::Button);
    assert_eq!(a.element, element("a", "button"));
    assert_eq!(a.callbacks, vec![binding("click", "go")]);
    assert_eq!(a.width, Some(Number::PosInt(80)));
    assert_eq!(a.height, None);
    assert_eq!(a.children, vec![1, 2]);
    assert_eq!(node(&builder, 1).kind, NodeKind::ButtonIcon);
    assert_eq!(node(&builder, 1).source, Some("go.png".to_string()));
    assert_eq!(node(&builder, 2).kind, NodeKind::ButtonLabel);
    assert_eq!(node(&builder, 2).text, Some("Go".to_string()));
    let b = node(&builder, 3);
    assert!(b.callbacks.is_empty());
    assert_eq!(b.children, vec![4]);
    assert_eq!(node(&builder, 4).text, Some("Button".to_string()));
}

#[test]
fn a_text_carries_its_style() {
    let builder = built(
        "[{\"type\":\"text\",\"id\":\"a\",\"props\":{\"content\":\"Hi\"}},\
         {\"type\":\"text\",\"id\":\"b\",\"props\":{\"size\":12.5,\"color\":\"rgb(1, 2, 3)\",\
         \"align\":\"right\",\"font\":\"mono.ttf\"}},\
         {\"type\":\"text\",\"id\":\"c\",\"props\":{\"align\":\"center\"}},\
         {\"type\":\"text\",\"id\":\"d\",\"props\":{\"align\":\"justify\"}}]",
    );
    let a = node(&builder, 0);
    assert_eq!(a.kind, NodeKind::Text);
    assert_eq!(a.text, Some("Hi".to_string()));
    assert_eq!(a.font_size, Some(Number::PosInt(16)));
    assert_eq!(a.color, None);
    assert_eq!(a.align, Some(TextAlign::Left));
    assert_eq!(a.font, Some("fonts/FiraSans-Regular.ttf".to_string()));
    let b = node(&builder, 1);
    assert_eq!(b.font_size, Some(Number::Float(12.5f64.to_bits())));
    assert_eq!(b.color, Some("rgb(1, 2, 3)".to_string()));
    assert_eq!(b.align, Some(TextAlign::Right));
    assert_eq!(b.font, Some("mono.ttf".to_string()));
    assert_eq!(node(&builder, 2).align, Some(TextAlign::Center));
    assert_eq!(node(&builder, 3).align, Some(TextAlign::Left));
}

#[test]
fn image_canvas_and_svg_are_single_nodes() {
    let builder = built(
        "[{\"type\":\"image\",\"id\":\"i\",\"props\":{\"source\":\"a.png\",\"height\":9}},\
         {\"type\":\"canvas\",\"id\":\"c\",\"props\":{\"on_draw\":\"draw\"}},\
         {\"type\":\"canvas\",\"id\":\"d\",\"props\":{\"on_draw\":\"draw\",\"on_click\":\"hit\"}},\
         {\"type\":\"canvas\",\"id\":\"e\"},\
         {\"type\":\"svg\",\"id\":\"s\",\"props\":{\"source\":\"a.svg\"}}]",
    );
    assert_eq!(builder.node_count(), 5);
    let i = node(&builder, 0);
    assert_eq!(i.kind, NodeKind::Image);
    assert_eq!(i.source, Some("a.png".to_string()));
    assert_eq!(i.width, None);
    assert_eq!(i.height, Some(Number::PosInt(9)));
    let c = node(&builder, 1);
    assert_eq!(c.kind, NodeKind::Canvas);
    assert_eq!(c.width, Some(Number::PosInt(200)));
    assert_eq!(c.callbacks, vec![binding("draw", "draw")]);
    assert_eq!(
        node(&builder, 2).callbacks,
        vec![binding("draw", "draw"), binding("click", "hit")]
    );
    assert!(node(&builder, 3).callbacks.is_empty());
    let s = node(&builder, 4);
    assert_eq!(s.kind, NodeKind::Svg);
    assert_eq!(s.element, element("s", "svg"));
    assert_eq!(s.source, Some("a.svg".to_string()));
}

#[test]
fn an_input_shows_its_value_or_its_placeholder() {
    let builder = built(
        "[{\"type\":\"input\",\"id\":\"a\",\"props\":{\"placeholder\":\"name\",\
         \"on_change\":\"changed\"}},\
         {\"type\":\"input\",\"id\":\"b\",\"props\":{\"placeholder\":\"name\",\"value\":\"Ann\",\
         \"width\":90,\"on_change\":\"changed\",\"on_submit\":\"sent\"}},\
         {\"type\":\"input\",\"id\":\"c\"}]",
    );
    let a = node(&builder, 0);
    assert_eq!(a.kind, NodeKind::Input);
    assert_eq!(a.width, Some(Number::PosInt(200)));
    assert_eq!(a.callbacks, vec![binding("change", "changed")]);
    assert_eq!(a.children, vec![1]);
    let shown = node(&builder, 1);
    assert_eq!(shown.kind, NodeKind::InputText);
    assert_eq!(shown.text, Some("name".to_string()));
    assert!(shown.placeholder);
    let b = node(&builder, 2);
    assert_eq!(b.width, Some(Number::PosInt(90)));
    assert_eq!(b.callbacks, vec![binding("change", "changed"), binding("submit", "sent")]);
    assert_eq!(node(&builder, 3).text, Some("Ann".to_string()));
    assert!(!node(&builder, 3).placeholder);
    assert_eq!(node(&builder, 5).text, Some(String::new()));
    assert!(node(&builder, 5).placeholder);
}

#[test]
fn a_viewport_has_camera_light_and_object() {
    let builder = built(
        "[{\"type\":\"viewport3d\",\"id\":\"a\"},\
         {\"type\":\"viewport3d\",\"id\":\"b\",\"props\":{\"width\":10,\
         \"camera\":{\"position\":[1,2,3],\"target\":[4,5,6]}}}]",
    );
    let a = node(&builder, 0);
    assert_eq!(a.kind, NodeKind::Viewport3D);
    assert_eq!(a.width, Some(Number::PosInt(300)));
    assert_eq!(a.children, vec![1, 2, 3]);
    assert_eq!(node(&builder, 1).kind, NodeKind::Camera);
    assert_eq!(
        node(&builder, 1).camera,
        Some(CameraProps {
            position: [Number::PosInt(0), Number::PosInt(5), Number::PosInt(10)],
            target: [Number::PosInt(0), Number::PosInt(0), Number::PosInt(0)],
        })
    );
    assert_eq!(node(&builder, 2).kind, NodeKind::Light);
    assert_eq!(node(&builder, 3).kind, NodeKind::Mesh);
    assert_eq!(node(&builder, 4).width, Some(Number::PosInt(10)));
    assert_eq!(
        node(&builder, 5).camera,
        Some(CameraProps {
            position: [Number::PosInt(1), Number::PosInt(2), Number::PosInt(3)],
            target: [Number::PosInt(4), Number::PosInt(5), Number::PosInt(6)],
        })
    );
}

#[test]
fn containers_carry_their_layout() {
    let builder = built(
        "[{\"type\":\"list\",\"id\":\"a\"},\
         {\"type\":\"list\",\"id\":\"b\",\"props\":{\"direction\":\"horizontal\",\"spacing\":9}},\
         {\"type\":\"row\",\"id\":\"c\",\"props\":{\"align\":\"space-between\"}},\
         {\"type\":\"row\",\"id\":\"d\",\"props\":{\"align\":\"center\"}},\
         {\"type\":\"column\",\"id\":\"e\",\"props\":{\"align\":\"end\",\"spacing\":0}},\
         {\"type\":\"column\",\"id\":\"f\",\"props\":{\"align\":\"space-around\"}},\
         {\"type\":\"column\",\"id\":\"g\",\"props\":{\"align\":\"start\"}},\
         {\"type\":\"column\",\"id\":\"h\",\"props\":{\"align\":\"middle\"}},\
         {\"type\":\"stack\",\"id\":\"i\"},\
         {\"type\":\"scrollview\",\"id\":\"j\",\"props\":{\"height\":50}}]",
    );
    assert_eq!(node(&builder, 0).kind, NodeKind::List);
    assert_eq!(node(&builder, 0).direction, Some(Direction::Column));
    assert_eq!(node(&builder, 0).spacing, Some(Number::PosInt(5)));
    assert_eq!(node(&builder, 1).direction, Some(Direction::Row));
    assert_eq!(node(&builder, 1).spacing, Some(Number::PosInt(9)));
    assert_eq!(node(&builder, 2).kind, NodeKind::Row);
    assert_eq!(node(&builder, 2).justify, Some(Justify::SpaceBetween));
    assert_eq!(node(&builder, 2).spacing, Some(Number::PosInt(5)));
    assert_eq!(node(&builder, 3).justify, Some(Justify::Center));
    assert_eq!(node(&builder, 4).kind, NodeKind::Column);
    assert_eq!(node(&builder, 4).justify, Some(Justify::End));
    assert_eq!(node(&builder, 4).spacing, Some(Number::PosInt(0)));
    assert_eq!(node(&builder, 5).justify, Some(Justify::SpaceAround));
    assert_eq!(node(&builder, 6).justify, Some(Justify::Start));
    assert_eq!(node(&builder, 7).justify, Some(Justify::Start));
    assert_eq!(node(&builder, 8).kind, NodeKind::Stack);
    assert_eq!(node(&builder, 8).element, element("i", "stack"));
    assert_eq!(node(&builder, 9).kind, NodeKind::ScrollView);
    assert_eq!(node(&builder, 9).width, Some(Number::PosInt(200)));
    assert_eq!(node(&builder, 9).height, Some(Number::PosInt(50)));
}

#[test]
fn seven_items_in_three_columns_make_rows_of_three_three_and_one() {
    let items: Vec<UIComponent> = ["a", "b", "c", "d", "e", "f", "g"].iter().map(|i| label(i)).collect();
    let mut builder = UIBuilder::new();
    builder.build_ui(&[grid("g0", 3, items)]);
    let g = builder.lookup("g0").unwrap();
    let rows = node(&builder, g).children.clone();
    assert_eq!(rows.len(), 3);
    let mut sizes = Vec::new();
    let mut order = Vec::new();
    for row in rows {
        let line = node(&builder, row);
        assert_eq!(line.kind, NodeKind::GridRow);
        assert_eq!(line.parent, Some(g));
        assert_eq!(line.element, None);
        assert_eq!(line.spacing, Some(Number::PosInt(5)));
        sizes.push(line.children.len());
        for item in &line.children {
            assert_eq!(node(&builder, *item).parent, Some(row));
            order.push(node(&builder, *item).element.clone().unwrap().id);
        }
    }
    assert_eq!(sizes, vec![3, 3, 1]);
    assert_eq!(order, vec!["a", "b", "c", "d", "e", "f", "g"]);
    assert_eq!(builder.node_count(), 1 + 3 + 7);
}

#[test]
fn rows_of_other_grids() {
    let sizes = |columns: usize, count: usize| -> Vec<usize> {
        let items: Vec<UIComponent> = (0..count).map(|i| label(&format!("i{}", i))).collect();
        let mut builder = UIBuilder::new();
        builder.build_ui(&[grid("g", columns, items)]);
        let g = builder.lookup("g").unwrap();
        node(&builder, g).children.iter().map(|r| node(&builder, *r).children.len()).collect()
    };
    assert_eq!(sizes(3, 0), Vec::<usize>::new());
    assert_eq!(sizes(3, 1), vec![1]);
    assert_eq!(sizes(3, 3), vec![3]);
    assert_eq!(sizes(3, 6), vec![3, 3]);
    assert_eq!(sizes(1, 3), vec![1, 1, 1]);
    assert_eq!(sizes(10, 3), vec![3]);
    assert_eq!(sizes(usize::MAX, 2), vec![2]);
    assert_eq!(sizes(0, 0), Vec::<usize>::new());
}

#[test]
fn a_grid_without_columns_fails_and_its_siblings_are_built() {
    let children = vec![label("a"), grid("g", 0, vec![label("x")]), label("b")];
    let mut builder = UIBuilder::new();
    builder.build_ui(&[UIComponent::Stack(StackProps { id: "s".to_string(), children })]);
    let s = builder.lookup("s").unwrap();
    let a = builder.lookup("a").unwrap();
    let b = builder.lookup("b").unwrap();
    assert_eq!(node(&builder, s).children, vec![a, b]);
    assert_eq!(builder.lookup("g"), None);
    assert_eq!(builder.lookup("x"), None);
    assert_eq!(builder.failures(), &vec![BuildError::ChildBuildFailed("g".to_string())]);
    assert_eq!(builder.node_count(), 3);
}

#[test]
fn a_root_that_fails_is_recorded() {
    let mut builder = UIBuilder::new();
    builder.build_ui(&[grid("g", 0, vec![label("x")]), label("a")]);
    assert_eq!(builder.failures(), &vec![BuildError::ChildBuildFailed("g".to_string())]);
    assert_eq!(builder.roots(), &vec![0]);
    assert_eq!(builder.lookup("a"), Some(0));
    assert_eq!(builder.build_grid(
        &GridProps { id: "h".to_string(), columns: 0, rows: None, items: vec![label("y")], spacing: None },
        None,
    ), None);
    assert_eq!(builder.node_count(), 1);
}

#[test]
fn registry_and_tree_name_the_same_components() {
    let text = "[{\"type\":\"window\",\"id\":\"w\",\"children\":[\
                {\"type\":\"grid\",\"id\":\"g\",\"children\":[{\"type\":\"text\",\"id\":\"t1\"},\
                {\"type\":\"text\",\"id\":\"t2\"},{\"type\":\"input\",\"id\":\"in\"}]},\
                {\"type\":\"list\",\"id\":\"l\",\"children\":[{\"type\":\"button\",\"id\":\"b\"}]}]},\
                {\"type\":\"viewport3d\",\"id\":\"v\"}]";
    let builder = built(text);
    let ids = ["w", "g", "t1", "t2", "in", "l", "b", "v"];
    let mut handles = Vec::new();
    for id in ids {
        let h = builder.lookup(id).unwrap();
        assert_eq!(node(&builder, h).element.clone().unwrap().id, id);
        assert!(!handles.contains(&h));
        handles.push(h);
    }
    let mut registered = 0;
    for h in 0..builder.node_count() {
        if let Some(e) = &node(&builder, h).element {
            assert_eq!(builder.lookup(&e.id), Some(h));
            assert!(ids.contains(&e.id.as_str()));
            registered += 1;
        }
    }
    assert_eq!(registered, ids.len());
    assert!(builder.failures().is_empty());
    assert_eq!(builder.lookup("nobody"), None);
}

#[test]
fn a_rebuild_starts_from_an_empty_registry() {
    let mut builder = built("[{\"type\":\"text\",\"id\":\"old\"},{\"type\":\"text\",\"id\":\"both\"}]");
    let old = builder.lookup("old").unwrap();
    let both = builder.lookup("both").unwrap();
    builder.build_ui(&tree("[{\"type\":\"text\",\"id\":\"both\"},{\"type\":\"text\",\"id\":\"new\"}]"));
    assert_eq!(builder.lookup("old"), None);
    assert!(!builder.is_live(old));
    assert!(!builder.is_live(both));
    let again = builder.lookup("both").unwrap();
    assert!(again > both);
    assert_eq!(builder.roots(), &vec![again, builder.lookup("new").unwrap()]);
    assert_eq!(builder.node_count(), 4);
}

#[test]
fn clearing_despawns_everything() {
    let mut builder = built("[{\"type\":\"window\",\"id\":\"w\"}]");
    builder.set_ruby_callback();
    builder.clear();
    assert_eq!(builder.node_count(), 6);
    for h in 0..6 {
        assert!(builder.node(h).is_none());
    }
    assert!(builder.roots().is_empty());
    assert_eq!(builder.lookup("w"), None);
    assert!(builder.failures().is_empty());
    assert!(builder.is_bridged());
}

#[test]
fn nothing_is_built_below_a_parent_that_does_not_exist() {
    let mut builder = UIBuilder::new();
    assert_eq!(builder.build_component(&label("a"), Some(3)), None);
    assert_eq!(builder.node_count(), 0);
    assert_eq!(builder.lookup("a"), None);
    let root = builder.build_component(&label("a"), None).unwrap();
    let child = builder.build_component(&label("b"), Some(root)).unwrap();
    assert_eq!(node(&builder, root).children, vec![child]);
    assert_eq!(node(&builder, child).parent, Some(root));
    assert_eq!(builder.roots(), &vec![root]);
}

#[test]
fn of_two_components_with_one_id_the_later_is_registered() {
    let builder = built("[{\"type\":\"text\",\"id\":\"t\"},{\"type\":\"image\",\"id\":\"t\"}]");
    assert_eq!(builder.lookup("t"), Some(1));
    assert_eq!(node(&builder, 0).kind, NodeKind::Text);
    assert_eq!(node(&builder, 1).kind, NodeKind::Image);
}

#[test]
fn the_policies_of_distribution() {
    let policy = |align: &str| -> Option<Justify> {
        let text = format!(
            "[{{\"type\":\"row\",\"id\":\"r\",\"props\":{{\"align\":\"{}\"}}}},\
             {{\"type\":\"column\",\"id\":\"c\",\"props\":{{\"align\":\"{}\"}}}}]",
            align, align
        );
        let builder = built(&text);
        assert_eq!(node(&builder, 0).justify, node(&builder, 1).justify);
        node(&builder, 0).justify
    };
    assert_eq!(policy("start"), Some(Justify::Start));
    assert_eq!(policy("center"), Some(Justify::Center));
    assert_eq!(policy("end"), Some(Justify::End));
    assert_eq!(policy("space-between"), Some(Justify::SpaceBetween));
    assert_eq!(policy("space-around"), Some(Justify::SpaceAround));
    assert_eq!(policy("spaceBetween"), Some(Justify::SpaceBetween));
    assert_eq!(policy("spaceAround"), Some(Justify::SpaceAround));
    assert_eq!(policy("space_between"), Some(Justify::Start));
    assert_eq!(policy("Center"), Some(Justify::Start));
}

#[test]
fn a_window_that_cannot_be_resized_has_no_least_size() {
    let builder = built("[{\"type\":\"window\",\"id\":\"w\",\"props\":{\"resizable\":false}}]");
    let frame = node(&builder, 0);
    assert!(!frame.resizable);
    assert!(frame.draggable);
    assert_eq!(frame.min_width, None);
    assert_eq!(frame.min_height, None);
}

#[test]
fn after_a_build_with_a_failure_the_registry_names_only_the_tree() {
    let mut builder = built("[{\"type\":\"text\",\"id\":\"old\"},{\"type\":\"text\",\"id\":\"x\"}]");
    let children = vec![label("a"), grid("g", 0, vec![label("x")])];
    builder.build_ui(&[UIComponent::Stack(StackProps { id: "s".to_string(), children })]);
    assert_eq!(builder.failures().len(), 1);
    assert_eq!(builder.lookup("old"), None);
    assert_eq!(builder.lookup("x"), None);
    assert!(builder.lookup("s").is_some());
    assert!(builder.lookup("a").is_some());
    builder.build_ui(&[]);
    for id in ["old", "x", "s", "a", "g"] {
        assert_eq!(builder.lookup(id), None);
    }
    assert!(builder.failures().is_empty());
}

#[test]
fn every_main_node_carries_the_tag_of_its_kind() {
    let kinds = [
        "window", "button", "text", "image", "canvas", "svg", "scrollview", "list", "grid",
        "input", "viewport3d", "stack", "row", "column",
    ];
    for kind in kinds {
        let builder = built(&format!("[{{\"type\":\"{}\",\"id\":\"it\"}}]", kind));
        assert!(builder.failures().is_empty());
        let h = builder.lookup("it").unwrap();
        assert_eq!(h, 0);
        assert_eq!(node(&builder, h).element, element("it", kind));
        assert_eq!(node(&builder, h).parent, None);
        assert_eq!(builder.roots(), &vec![h]);
        for other in 1..builder.node_count() {
            assert_eq!(node(&builder, other).element, None);
        }
    }
}

#[test]
fn children_stand_below_the_content_node_in_the_order_given() {
    let children = |prefix: &str| -> String {
        format!(
            "[{{\"type\":\"button\",\"id\":\"{0}1\"}},{{\"type\":\"text\",\"id\":\"{0}2\"}},\
             {{\"type\":\"row\",\"id\":\"{0}3\",\"children\":[{{\"type\":\"text\",\"id\":\"{0}4\"}}]}},\
             {{\"type\":\"input\",\"id\":\"{0}5\"}}]",
            prefix
        )
    };
    for kind in ["window", "scrollview", "list", "stack", "row", "column"] {
        let builder = built(&format!(
            "[{{\"type\":\"{}\",\"id\":\"top\",\"children\":{}}}]",
            kind,
            children("c")
        ));
        let top = builder.lookup("top").unwrap();
        let content = if kind == "window" { top + 5 } else { top };
        let expected: Vec<usize> =
            ["c1", "c2", "c3", "c5"].iter().map(|id| builder.lookup(id).unwrap()).collect();
        assert_eq!(node(&builder, content).children, expected, "{}", kind);
        assert!(expected.windows(2).all(|pair| pair[0] < pair[1]));
        for (h, (id, tag)) in expected.iter().zip([
            ("c1", "button"),
            ("c2", "text"),
            ("c3", "row"),
            ("c5", "input"),
        ]) {
            assert_eq!(node(&builder, *h).element, element(id, tag));
            assert_eq!(node(&builder, *h).parent, Some(content));
        }
        let inner = builder.lookup("c3").unwrap();
        assert_eq!(node(&builder, inner).children, vec![builder.lookup("c4").unwrap()]);
    }
}

#[test]
fn the_rows_of_a_grid_hold_the_items_that_were_built_in_order() {
    let items = vec![
        label("a"),
        grid("bad", 0, vec![label("x")]),
        label("b"),
        label("c"),
        label("d"),
    ];
    let mut builder = UIBuilder::new();
    builder.build_ui(&[grid("g", 2, items)]);
    let g = builder.lookup("g").unwrap();
    let rows = node(&builder, g).children.clone();
    assert_eq!(rows.len(), 3);
    let of = |id: &str| builder.lookup(id).unwrap();
    assert_eq!(node(&builder, rows[0]).children, vec![of("a")]);
    assert_eq!(node(&builder, rows[1]).children, vec![of("b"), of("c")]);
    assert_eq!(node(&builder, rows[2]).children, vec![of("d")]);
    for row in &rows {
        assert_eq!(node(&builder, *row).kind, NodeKind::GridRow);
        assert_eq!(node(&builder, *row).parent, Some(g));
        assert_eq!(node(&builder, *row).element, None);
    }
    assert_eq!(builder.failures(), &vec![BuildError::ChildBuildFailed("bad".to_string())]);
}

#[test]
fn a_build_leaves_the_other_entries_on_their_handles() {
    let mut builder = built(
        "[{\"type\":\"column\",\"id\":\"col\",\"children\":[{\"type\":\"text\",\"id\":\"a\"},\
         {\"type\":\"button\",\"id\":\"b\"}]},{\"type\":\"text\",\"id\":\"z\"}]",
    );
    let before: Vec<(String, usize, NativeNode)> = ["col", "a", "b", "z"]
        .iter()
        .map(|id| {
            let h = builder.lookup(id).unwrap();
            (id.to_string(), h, node(&builder, h).clone())
        })
        .collect();
    let count = builder.node_count();
    let col = builder.lookup("col").unwrap();
    let added = UIComponent::Stack(StackProps {
        id: "more".to_string(),
        children: vec![label("m1"), label("a")],
    });
    let h = builder.build_component(&added, Some(col)).unwrap();
    assert_eq!(h, count);
    for (id, handle, was) in &before {
        if id == "a" {
            assert!(builder.lookup(id).unwrap() >= count);
            assert_eq!(node(&builder, *handle), was);
        } else if id == "col" {
            assert_eq!(builder.lookup(id), Some(*handle));
            let mut grown = was.clone();
            grown.children.push(h);
            assert_eq!(node(&builder, *handle), &grown);
        } else {
            assert_eq!(builder.lookup(id), Some(*handle));
            assert_eq!(node(&builder, *handle), was);
        }
    }
    assert_eq!(builder.lookup("more"), Some(h));
    assert!(builder.lookup("m1").unwrap() > h);
    assert_eq!(builder.roots().len(), 2);
}

#[test]
fn the_roots_stand_in_the_order_given() {
    let mut builder = UIBuilder::new();
    builder.build_ui(&[label("a"), grid("bad", 0, vec![label("x")]), label("b"), label("c")]);
    let expected: Vec<usize> =
        ["a", "b", "c"].iter().map(|id| builder.lookup(id).unwrap()).collect();
    assert_eq!(builder.roots(), &expected);
    for (h, id) in expected.iter().zip(["a", "b", "c"]) {
        assert_eq!(node(&builder, *h).element, element(id, "text"));
        assert_eq!(node(&builder, *h).parent, None);
    }
}
