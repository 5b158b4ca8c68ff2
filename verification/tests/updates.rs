use ui_dsl::dsl::parser::DSLParser;
use ui_dsl::json::Number;
use ui_dsl::ui::builder::changes::UpdateError;
use ui_dsl::ui::builder::interactive_components::{background_after, is_rgb_value};
use ui_dsl::ui::builder::model::BuildError;
use ui_dsl::ui::builder::UIBuilder;
use ui_dsl::ui::components::{
    has_distinct_keys, CallbackError, Entry, GridProps, RubyCallbackEvent, TextProps, UIComponent,
    UIComponentUpdate,
};
use ui_dsl::ui::native::{NativeNode, NodeKind};

fn tree(text: &str) -> Vec<UIComponent> {
    DSLParser::new().parse_components_json(text).unwrap()
}

fn built(text: &str) -> UIBuilder {
    let mut builder = UIBuilder::new();
    builder.build_ui(&tree(text));
    builder
}

fn nodes(builder: &UIBuilder) -> Vec<Option<NativeNode>> {
    (0..builder.node_count()).map(|h| builder.node(h).cloned()).collect()
}

fn entry(key: &str, value: &str) -> Entry {
    Entry { key: key.to_string(), value: value.to_string() }
}

fn label(id: &str, content: &str) -> UIComponent {
    UIComponent::Text(TextProps {
        id: id.to_string(),
        content: content.to_string(),
        size: None,
        color: None,
        align: None,
        font: None,
    })
}

const SCENE: &str = "[{\"type\":\"column\",\"id\":\"col\",\"children\":[\
    {\"type\":\"text\",\"id\":\"t\",\"props\":{\"content\":\"one\"}},\
    {\"type\":\"button\",\"id\":\"b\",\"props\":{\"text\":\"Go\",\"icon\":\"go.png\"}},\
    {\"type\":\"image\",\"id\":\"i\",\"props\":{\"source\":\"a.png\"}},\
    {\"type\":\"input\",\"id\":\"n\",\"props\":{\"value\":\"Ann\"}},\
    {\"type\":\"row\",\"id\":\"r\",\"children\":[{\"type\":\"text\",\"id\":\"inner\"}]}]}]";

#[test]
fn an_unknown_id_is_not_found_and_nothing_changes() {
    let mut builder = built(SCENE);
    let before = nodes(&builder);
    let r = builder.update_component("nobody", &UIComponentUpdate::SetText("x".to_string()));
    assert_eq!(r, Err(UpdateError::NotFound("nobody".to_string())));
    let r = builder.update_component("nobody", &UIComponentUpdate::Replace(label("nobody", "x")));
    assert_eq!(r, Err(UpdateError::NotFound("nobody".to_string())));
    assert_eq!(nodes(&builder), before);
    assert!(builder.failures().is_empty());
}

#[test]
fn set_text_overwrites_the_text_of_a_text() {
    let mut builder = built(SCENE);
    let t = builder.lookup("t").unwrap();
    let mut expected = nodes(&builder);
    expected[t].as_mut().unwrap().text = Some("X".to_string());
    assert_eq!(builder.update_component("t", &UIComponentUpdate::SetText("X".to_string())), Ok(()));
    assert_eq!(nodes(&builder), expected);
}

#[test]
fn setting_a_text_twice_is_setting_it_once() {
    let mut once = built(SCENE);
    let mut twice = built(SCENE);
    for id in ["t", "b", "n", "col", "i"] {
        let update = UIComponentUpdate::SetText("X".to_string());
        assert_eq!(once.update_component(id, &update), Ok(()));
        assert_eq!(twice.update_component(id, &update), Ok(()));
        assert_eq!(twice.update_component(id, &update), Ok(()));
        assert_eq!(nodes(&once), nodes(&twice));
    }
}

#[test]
fn every_update_but_a_replacement_is_idempotent() {
    let updates = vec![
        UIComponentUpdate::SetImage("b.png".to_string()),
        UIComponentUpdate::SetPosition(Number::PosInt(3), Number::NegInt(-4)),
        UIComponentUpdate::SetSize(Number::PosInt(30), Number::PosInt(40)),
        UIComponentUpdate::SetVisible(false),
        UIComponentUpdate::SetStyle(vec![
            entry("backgroundColor", "rgb(1,2,3)"),
            entry("color", "red"),
        ]),
    ];
    for update in &updates {
        for id in ["t", "b", "i", "n", "col"] {
            let mut once = built(SCENE);
            let mut twice = built(SCENE);
            assert_eq!(once.update_component(id, update), Ok(()));
            assert_eq!(twice.update_component(id, update), Ok(()));
            assert_eq!(twice.update_component(id, update), Ok(()));
            assert_eq!(nodes(&once), nodes(&twice));
        }
    }
}

#[test]
fn set_text_goes_to_the_node_that_holds_the_text() {
    let mut builder = built(SCENE);
    let b = builder.lookup("b").unwrap();
    let n = builder.lookup("n").unwrap();
    assert_eq!(builder.text_holder(b), Some(b + 2));
    assert_eq!(builder.text_holder(n), Some(n + 1));
    assert_eq!(builder.text_holder(builder.lookup("col").unwrap()), None);
    assert_eq!(builder.text_holder(builder.lookup("r").unwrap()), None);
    assert_eq!(builder.text_holder(builder.lookup("t").unwrap()), builder.lookup("t"));
    assert_eq!(builder.text_holder(1000), None);
    assert_eq!(builder.text_holder(builder.lookup("i").unwrap()), None);
    let mut expected = nodes(&builder);
    expected[b + 2].as_mut().unwrap().text = Some("Stop".to_string());
    expected[n + 1].as_mut().unwrap().text = Some("Bob".to_string());
    builder.update_component("b", &UIComponentUpdate::SetText("Stop".to_string())).unwrap();
    builder.update_component("n", &UIComponentUpdate::SetText("Bob".to_string())).unwrap();
    assert_eq!(nodes(&builder), expected);
    let before = nodes(&builder);
    builder.update_component("i", &UIComponentUpdate::SetText("none".to_string())).unwrap();
    assert_eq!(nodes(&builder), before);
}

#[test]
fn set_image_goes_to_the_node_that_holds_the_image() {
    let mut builder = built(SCENE);
    let i = builder.lookup("i").unwrap();
    let b = builder.lookup("b").unwrap();
    assert_eq!(builder.source_holder(i), Some(i));
    assert_eq!(builder.source_holder(b), Some(b + 1));
    assert_eq!(builder.source_holder(builder.lookup("t").unwrap()), None);
    assert_eq!(builder.source_holder(builder.lookup("col").unwrap()), None);
    assert_eq!(builder.source_holder(1000), None);
    let mut expected = nodes(&builder);
    expected[i].as_mut().unwrap().source = Some("b.png".to_string());
    expected[b + 1].as_mut().unwrap().source = Some("stop.png".to_string());
    builder.update_component("i", &UIComponentUpdate::SetImage("b.png".to_string())).unwrap();
    builder.update_component("b", &UIComponentUpdate::SetImage("stop.png".to_string())).unwrap();
    builder.update_component("t", &UIComponentUpdate::SetImage("none.png".to_string())).unwrap();
    assert_eq!(nodes(&builder), expected);
}

#[test]
fn position_size_and_visibility_touch_one_aspect_each() {
    let mut builder = built(SCENE);
    let r = builder.lookup("r").unwrap();
    let mut expected = nodes(&builder);
    expected[r].as_mut().unwrap().left = Some(Number::PosInt(7));
    expected[r].as_mut().unwrap().top = Some(Number::Float(1.5f64.to_bits()));
    builder
        .update_component(
            "r",
            &UIComponentUpdate::SetPosition(Number::PosInt(7), Number::Float(1.5f64.to_bits())),
        )
        .unwrap();
    assert_eq!(nodes(&builder), expected);
    expected[r].as_mut().unwrap().width = Some(Number::PosInt(100));
    expected[r].as_mut().unwrap().height = Some(Number::PosInt(50));
    builder
        .update_component("r", &UIComponentUpdate::SetSize(Number::PosInt(100), Number::PosInt(50)))
        .unwrap();
    assert_eq!(nodes(&builder), expected);
    expected[r].as_mut().unwrap().visible = false;
    builder.update_component("r", &UIComponentUpdate::SetVisible(false)).unwrap();
    assert_eq!(nodes(&builder), expected);
    expected[r].as_mut().unwrap().visible = true;
    builder.update_component("r", &UIComponentUpdate::SetVisible(true)).unwrap();
    assert_eq!(nodes(&builder), expected);
}

#[test]
fn a_style_sheet_sets_the_background_it_recognizes() {
    let mut builder = built(SCENE);
    let t = builder.lookup("t").unwrap();
    let mut expected = nodes(&builder);
    let sheet = vec![
        entry("backgroundColor", "rgb(10, 20, 30)"),
        entry("color", "blue"),
        entry("backgroundColor", "red"),
    ];
    expected[t].as_mut().unwrap().background = Some("rgb(10, 20, 30)".to_string());
    builder.update_component("t", &UIComponentUpdate::SetStyle(sheet)).unwrap();
    assert_eq!(nodes(&builder), expected);
    builder.update_component("t", &UIComponentUpdate::SetStyle(vec![entry("margin", "3")])).unwrap();
    assert_eq!(nodes(&builder), expected);
    builder.update_component("t", &UIComponentUpdate::SetStyle(vec![])).unwrap();
    assert_eq!(nodes(&builder), expected);
    let sheet = vec![
        entry("backgroundColor", "rgb(1,2,3)"),
        entry("backgroundColor", "rgb(4,5,6)"),
    ];
    expected[t].as_mut().unwrap().background = Some("rgb(4,5,6)".to_string());
    builder.update_component("t", &UIComponentUpdate::SetStyle(sheet)).unwrap();
    assert_eq!(nodes(&builder), expected);
}

#[test]
fn which_backgrounds_are_applied() {
    assert!(is_rgb_value(&"rgb(1,2,3)".to_string()));
    assert!(is_rgb_value(&"rgb(1, 2, 3, 4)".to_string()));
    assert!(is_rgb_value(&"rgb(,,".to_string()));
    assert!(!is_rgb_value(&"rgb(1,2)".to_string()));
    assert!(!is_rgb_value(&"rgb".to_string()));
    assert!(!is_rgb_value(&"".to_string()));
    assert!(!is_rgb_value(&"rgba(1,2,3)".to_string()));
    assert!(!is_rgb_value(&" rgb(1,2,3)".to_string()));
    assert!(!is_rgb_value(&"RGB(1,2,3)".to_string()));
    assert!(is_rgb_value(&"rgb(é,ü,ß)".to_string()));
    assert_eq!(
        background_after(&Some("old".to_string()), &vec![entry("backgroundColor", "blue")]),
        Some("old".to_string())
    );
    assert_eq!(background_after(&None, &vec![entry("backgroundcolor", "rgb(1,2,3)")]), None);
    assert_eq!(
        background_after(&None, &vec![entry("backgroundColor", "rgb(1,2,3)")]),
        Some("rgb(1,2,3)".to_string())
    );
}

#[test]
fn a_replacement_gets_a_new_node_in_the_old_place() {
    let mut builder = built(SCENE);
    let col = builder.lookup("col").unwrap();
    let old = builder.lookup("r").unwrap();
    let inner = builder.lookup("inner").unwrap();
    let count = builder.node_count();
    let siblings = builder.node(col).unwrap().children.clone();
    let replacement = tree(
        "[{\"type\":\"row\",\"id\":\"r\",\"children\":[{\"type\":\"text\",\"id\":\"fresh\"}]}]",
    )
    .remove(0);
    assert_eq!(builder.update_component("r", &UIComponentUpdate::Replace(replacement)), Ok(()));
    let new = builder.lookup("r").unwrap();
    assert_ne!(new, old);
    assert_eq!(new, count);
    assert!(builder.is_live(new));
    assert!(!builder.is_live(old));
    assert!(!builder.is_live(inner));
    assert_eq!(builder.lookup("inner"), None);
    let fresh = builder.lookup("fresh").unwrap();
    assert_eq!(builder.node(fresh).unwrap().parent, Some(new));
    assert_eq!(builder.node(new).unwrap().parent, Some(col));
    assert_eq!(builder.node(new).unwrap().children, vec![fresh]);
    let mut expected = siblings.clone();
    let place = siblings.iter().position(|h| *h == old).unwrap();
    expected[place] = new;
    assert_eq!(builder.node(col).unwrap().children, expected);
    assert!(builder.failures().is_empty());
}

#[test]
fn a_replacement_in_the_middle_keeps_the_order_of_the_siblings() {
    let mut builder = built(SCENE);
    let col = builder.lookup("col").unwrap();
    let siblings = builder.node(col).unwrap().children.clone();
    let old = builder.lookup("b").unwrap();
    builder.update_component("b", &UIComponentUpdate::Replace(label("b", "now a text"))).unwrap();
    let new = builder.lookup("b").unwrap();
    let mut expected = siblings;
    assert_eq!(expected[1], old);
    expected[1] = new;
    assert_eq!(builder.node(col).unwrap().children, expected);
    assert_eq!(builder.node(new).unwrap().kind, NodeKind::Text);
    assert!(builder.node(old).is_none());
    assert!(builder.node(old + 1).is_none());
    assert!(builder.node(old + 2).is_none());
    assert!(builder.node(old + 3).is_some());
}

#[test]
fn a_root_can_be_replaced() {
    let mut builder = built("[{\"type\":\"text\",\"id\":\"a\"},{\"type\":\"text\",\"id\":\"b\"},\
                             {\"type\":\"text\",\"id\":\"c\"}]");
    builder.update_component("b", &UIComponentUpdate::Replace(label("b", "again"))).unwrap();
    assert_eq!(builder.roots(), &vec![0, 3, 2]);
    assert_eq!(builder.lookup("b"), Some(3));
    assert_eq!(builder.node(3).unwrap().text, Some("again".to_string()));
    assert!(builder.node(1).is_none());
    builder.update_component("b", &UIComponentUpdate::Replace(label("b", "and again"))).unwrap();
    assert_eq!(builder.roots(), &vec![0, 4, 2]);
    assert_eq!(builder.lookup("b"), Some(4));
    assert!(builder.node(3).is_none());
}

#[test]
fn a_replacement_of_another_id_takes_the_id_it_replaces() {
    let mut builder = built(SCENE);
    let col = builder.lookup("col").unwrap();
    let old = builder.lookup("t").unwrap();
    let siblings = builder.node(col).unwrap().children.clone();
    let count = builder.node_count();
    let r = builder.update_component("t", &UIComponentUpdate::Replace(label("other", "x")));
    assert_eq!(r, Ok(()));
    let new = builder.lookup("t").unwrap();
    assert_eq!(new, count);
    assert_ne!(new, old);
    assert!(builder.is_live(new));
    assert!(!builder.is_live(old));
    assert_eq!(builder.lookup("other"), None);
    let node = builder.node(new).unwrap();
    assert_eq!(node.element.clone().unwrap().id, "t");
    assert_eq!(node.element.clone().unwrap().component_type, "text");
    assert_eq!(node.text, Some("x".to_string()));
    let mut expected = siblings;
    expected[0] = new;
    assert_eq!(builder.node(col).unwrap().children, expected);
    assert!(builder.failures().is_empty());
    builder.update_component("t", &UIComponentUpdate::SetText("y".to_string())).unwrap();
    assert_eq!(builder.node(new).unwrap().text, Some("y".to_string()));
}

#[test]
fn a_replacement_keeps_the_ids_of_other_components() {
    let mut builder = built(SCENE);
    let b = builder.lookup("b").unwrap();
    let replacement = DSLParser::new()
        .parse_components_json(
            "[{\"type\":\"row\",\"id\":\"b\",\"children\":[{\"type\":\"text\",\"id\":\"deep\"}]}]",
        )
        .unwrap()
        .remove(0);
    builder.update_component("r", &UIComponentUpdate::Replace(replacement)).unwrap();
    let new = builder.lookup("r").unwrap();
    assert_eq!(builder.lookup("b"), Some(b));
    assert_eq!(builder.lookup("inner"), None);
    let deep = builder.lookup("deep").unwrap();
    assert_eq!(builder.node(deep).unwrap().parent, Some(new));
    assert_eq!(builder.node(new).unwrap().element.clone().unwrap().id, "r");
    for h in 0..builder.node_count() {
        if let Some(node) = builder.node(h) {
            if let Some(p) = node.parent {
                assert!(builder.node(p).unwrap().children.contains(&h));
            }
        }
    }
}

#[test]
fn a_text_inside_a_container_is_not_the_text_of_the_container() {
    let mut builder = built(SCENE);
    let before = nodes(&builder);
    builder.update_component("col", &UIComponentUpdate::SetText("X".to_string())).unwrap();
    builder.update_component("r", &UIComponentUpdate::SetText("X".to_string())).unwrap();
    builder.update_component("col", &UIComponentUpdate::SetImage("x.png".to_string())).unwrap();
    assert_eq!(nodes(&builder), before);
}

#[test]
fn a_replacement_that_cannot_be_built_is_a_failure_that_changes_nothing() {
    let mut builder = built(SCENE);
    let before = nodes(&builder);
    let grid = UIComponent::Grid(GridProps {
        id: "t".to_string(),
        columns: 0,
        rows: None,
        items: vec![label("x", "x")],
        spacing: None,
    });
    assert_eq!(builder.update_component("t", &UIComponentUpdate::Replace(grid)), Ok(()));
    assert_eq!(nodes(&builder), before);
    assert_eq!(builder.failures(), &vec![BuildError::ChildBuildFailed("t".to_string())]);
    assert!(builder.lookup("t").is_some());
}

#[test]
fn a_request_needs_a_bridge() {
    let mut builder = UIBuilder::new();
    assert_eq!(
        builder.execute_ruby_callback("go", vec![entry("id", "b")]),
        Err(CallbackError::ScriptFailure("Fonction de callback Ruby non définie".to_string()))
    );
    builder.set_ruby_callback();
    assert!(builder.is_bridged());
    assert_eq!(
        builder.execute_ruby_callback("go", vec![entry("id", "b"), entry("event", "click")]),
        Ok(RubyCallbackEvent {
            callback: "go".to_string(),
            arguments: vec![entry("id", "b"), entry("event", "click")],
        })
    );
    assert_eq!(
        builder.execute_ruby_callback("go", vec![]),
        Ok(RubyCallbackEvent { callback: "go".to_string(), arguments: vec![] })
    );
}

#[test]
fn a_request_without_a_name_is_handed_on() {
    let mut builder = UIBuilder::new();
    builder.set_ruby_callback();
    assert_eq!(
        builder.execute_ruby_callback("", vec![entry("id", "b")]),
        Ok(RubyCallbackEvent { callback: "".to_string(), arguments: vec![entry("id", "b")] })
    );
    assert_eq!(
        builder.execute_ruby_callback("", vec![]),
        Ok(RubyCallbackEvent { callback: "".to_string(), arguments: vec![] })
    );
    assert_eq!(
        builder.execute_ruby_callback("not defined anywhere", vec![]),
        Ok(RubyCallbackEvent { callback: "not defined anywhere".to_string(), arguments: vec![] })
    );
}

#[test]
fn invalid_requests() {
    let mut builder = UIBuilder::new();
    builder.set_ruby_callback();
    assert_eq!(
        builder.execute_ruby_callback("go", vec![entry("id", "b"), entry("x", "1"), entry("id", "c")]),
        Err(CallbackError::InvalidArguments)
    );
    assert!(has_distinct_keys(&vec![]));
    assert!(has_distinct_keys(&vec![entry("a", "1"), entry("b", "1")]));
    assert!(!has_distinct_keys(&vec![entry("a", "1"), entry("a", "1")]));
}

#[test]
fn a_component_under_another_id() {
    let text = label("a", "hello");
    let named = text.with_id("b");
    assert_eq!(named, label("b", "hello"));
    assert_eq!(text.id(), "a");
    let grid = UIComponent::Grid(GridProps {
        id: "g".to_string(),
        columns: 2,
        rows: Some(1),
        items: vec![label("x", "x")],
        spacing: None,
    });
    match grid.with_id("h") {
        UIComponent::Grid(p) => {
            assert_eq!(p.id, "h");
            assert_eq!(p.columns, 2);
            assert_eq!(p.rows, Some(1));
            assert_eq!(p.items, vec![label("x", "x")]);
        }
        other => panic!("not a grid: {:?}", other),
    }
}
