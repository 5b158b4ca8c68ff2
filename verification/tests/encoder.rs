use ui_dsl::dsl::encoder::{children_of, encode, encode_all};
use ui_dsl::dsl::parser::{decode, decode_value, DSLParser};
use ui_dsl::json::{Json, Member, Number};
use ui_dsl::ui::components::{
    ButtonProps, CameraProps, Entry, StackProps, TextProps, UIComponent, Viewport3DProps,
};

fn member(key: &str, value: Json) -> Member {
    Member { key: key.to_string(), value }
}

fn text(value: &str) -> Json {
    Json::Str(value.to_string())
}

fn label(id: &str) -> UIComponent {
    UIComponent::Text(TextProps {
        id: id.to_string(),
        content: "hello".to_string(),
        size: Some(Number::PosInt(12)),
        color: None,
        align: Some("center".to_string()),
        font: None,
    })
}

#[test]
fn a_leaf_is_written_with_all_its_properties() {
    let expected = Json::Object(vec![
        member("id", text("t")),
        member("type", text("text")),
        member(
            "props",
            Json::Object(vec![
                member("content", text("hello")),
                member("size", Json::Number(Number::PosInt(12))),
                member("color", Json::Null),
                member("align", text("center")),
                member("font", Json::Null),
            ]),
        ),
    ]);
    assert_eq!(encode(&label("t")), expected);
    assert_eq!(decode_value(&expected), Ok(label("t")));
}

#[test]
fn a_container_is_written_with_its_children() {
    let stack = UIComponent::Stack(StackProps {
        id: "s".to_string(),
        children: vec![label("a"), label("b")],
    });
    let written = encode(&stack);
    assert_eq!(written.get("id"), Some(&text("s")));
    assert_eq!(written.get("type"), Some(&text("stack")));
    assert_eq!(written.get("props"), Some(&Json::Object(vec![])));
    assert_eq!(
        written.get("children"),
        Some(&Json::Array(vec![encode(&label("a")), encode(&label("b"))]))
    );
    assert_eq!(children_of(&stack).map(|c| c.len()), Some(2));
    assert!(children_of(&label("a")).is_none());
    assert_eq!(encode(&label("a")).get("children"), None);
    assert_eq!(decode_value(&written), Ok(stack));
}

#[test]
fn a_style_sheet_and_a_camera_are_written_as_objects() {
    let button = UIComponent::Button(ButtonProps {
        id: "b".to_string(),
        text: "Go".to_string(),
        width: None,
        height: Some(Number::Float(1.5f64.to_bits())),
        on_click: Some("go".to_string()),
        icon: None,
        style: Some(vec![
            Entry { key: "color".to_string(), value: "red".to_string() },
            Entry { key: "font".to_string(), value: "mono".to_string() },
        ]),
    });
    let written = encode(&button);
    let props = written.get("props").unwrap();
    assert_eq!(
        props.get("style"),
        Some(&Json::Object(vec![member("color", text("red")), member("font", text("mono"))]))
    );
    assert_eq!(props.get("width"), Some(&Json::Null));
    assert_eq!(decode_value(&written), Ok(button));

    let camera = CameraProps {
        position: [Number::PosInt(1), Number::NegInt(-2), Number::PosInt(3)],
        target: [Number::PosInt(4), Number::PosInt(5), Number::PosInt(6)],
    };
    let with_camera = UIComponent::Viewport3D(Viewport3DProps {
        id: "v".to_string(),
        width: Number::PosInt(10),
        height: Number::PosInt(20),
        scene: None,
        camera: Some(camera),
    });
    let written = encode(&with_camera);
    let camera_written = written.get("props").unwrap().get("camera").unwrap();
    assert_eq!(
        camera_written.get("position"),
        Some(&Json::Array(vec![
            Json::Number(Number::PosInt(1)),
            Json::Number(Number::NegInt(-2)),
            Json::Number(Number::PosInt(3)),
        ]))
    );
    assert_eq!(decode_value(&written), Ok(with_camera));
    let without = UIComponent::Viewport3D(Viewport3DProps {
        id: "v".to_string(),
        width: Number::PosInt(10),
        height: Number::PosInt(20),
        scene: Some("s".to_string()),
        camera: None,
    });
    let written = encode(&without);
    assert_eq!(written.get("props").unwrap().get("camera"), None);
    assert_eq!(decode_value(&written), Ok(without));
}

#[test]
fn decoding_writing_and_decoding_again_gives_the_same_tree() {
    let text = "[{\"type\":\"window\",\"id\":\"w\",\"props\":{\"title\":\"Main\",\"x\":1.5,\
                \"resizable\":false,\"extra\":true},\"children\":[\
                {\"type\":\"grid\",\"id\":\"g\",\"props\":{\"columns\":3,\"rows\":2},\"children\":[\
                {\"type\":\"text\",\"id\":\"t1\",\"props\":{\"content\":\"a\",\"size\":\"big\"}},\
                {\"type\":\"input\",\"id\":\"in\",\"props\":{\"value\":\"v\",\"on_submit\":\"s\"}},\
                {\"type\":\"image\",\"id\":\"im\",\"props\":{\"source\":\"a.png\",\"scale\":-2}},\
                {\"type\":\"svg\",\"id\":\"sv\"},\
                {\"type\":\"canvas\",\"id\":\"ca\",\"props\":{\"on_draw\":\"d\"}}]},\
                {\"type\":\"list\",\"id\":\"l\",\"props\":{\"direction\":\"horizontal\"},\"children\":[\
                {\"type\":\"button\",\"id\":\"b\",\"props\":{\"style\":{\"a\":\"1\",\"b\":2,\"c\":\"3\"}}}]},\
                {\"type\":\"scrollview\",\"id\":\"sc\",\"children\":[{\"type\":\"stack\",\"id\":\"st\"}]},\
                {\"type\":\"row\",\"id\":\"r\",\"props\":{\"align\":\"end\"}},\
                {\"type\":\"column\",\"id\":\"c\",\"props\":{\"spacing\":4}}]},\
                {\"type\":\"viewport3d\",\"id\":\"v\",\"props\":{\"camera\":{\"target\":[1,2,3]}}},\
                {\"type\":\"viewport3d\",\"id\":\"u\"}]";
    let first = DSLParser::new().parse_components_json(text).unwrap();
    let written = encode_all(&first);
    assert_eq!(written.len(), 3);
    let second = decode(&written).unwrap();
    assert_eq!(second, first);
    assert_eq!(encode_all(&second), written);
}

#[test]
fn the_source_of_a_callback() {
    let parser = DSLParser::new();
    let entry = |k: &str, v: &str| Entry { key: k.to_string(), value: v.to_string() };
    assert_eq!(
        parser.execute_callback("greet", &vec![entry("id", "b"), entry("event", "click")]),
        "greet({ 'id' => 'b', 'event' => 'click' })"
    );
    assert_eq!(parser.execute_callback("greet", &vec![]), "greet({  })");
    assert_eq!(
        parser.execute_callback("say", &vec![entry("value", "it's 'quoted' \u{e9}")]),
        "say({ 'value' => 'it\\'s \\'quoted\\' \u{e9}' })"
    );
    assert_eq!(
        parser.execute_callback("f", &vec![entry("a", ""), entry("b", "'"), entry("c", "x")]),
        "f({ 'a' => '', 'b' => '\\'', 'c' => 'x' })"
    );
    assert_eq!(
        parser.execute_callback("f", &vec![entry("path", "C:\\dir\\"), entry("it's", "\\'")]),
        "f({ 'path' => 'C:\\\\dir\\\\', 'it\\'s' => '\\\\\\'' })"
    );
}

#[test]
fn a_copy_of_a_tree_is_equal_to_it() {
    let text = "[{\"type\":\"window\",\"id\":\"w\",\"children\":[\
                {\"type\":\"button\",\"id\":\"b\",\"props\":{\"style\":{\"a\":\"1\"}}},\
                {\"type\":\"grid\",\"id\":\"g\",\"children\":[{\"type\":\"text\",\"id\":\"t\"}]},\
                {\"type\":\"viewport3d\",\"id\":\"v\",\"props\":{\"camera\":{}}}]}]";
    let tree = DSLParser::new().parse_components_json(text).unwrap();
    let copy: Vec<UIComponent> = tree.iter().map(|c| c.clone()).collect();
    assert_eq!(copy, tree);
    let written = encode_all(&tree);
    let again: Vec<Json> = written.iter().map(|j| j.clone()).collect();
    assert_eq!(again, written);
}
