use ui_dsl::dsl::parser::{
    decode, decode_value, DSLParser, DecodeError, ScriptOutcome,
};
use ui_dsl::json::{Json, Member, Number};
use ui_dsl::ui::components::{Entry, UIComponent};

fn parse(text: &str) -> Result<Vec<UIComponent>, DecodeError> {
    DSLParser::new().parse_components_json(text)
}

fn one(text: &str) -> UIComponent {
    let mut all = parse(text).unwrap();
    assert_eq!(all.len(), 1);
    all.remove(0)
}

fn member(key: &str, value: Json) -> Member {
    Member { key: key.to_string(), value }
}

fn text(value: &str) -> Json {
    Json::Str(value.to_string())
}

fn node(kind: &str, id: &str, props: Vec<Member>, children: Vec<Json>) -> Json {
    Json::Object(vec![
        member("id", text(id)),
        member("type", text(kind)),
        member("props", Json::Object(props)),
        member("children", Json::Array(children)),
    ])
}

#[test]
fn unknown_type_is_reported_with_its_tag() {
    let r = parse("[{\"type\":\"bogus\",\"id\":\"x\"}]");
    assert_eq!(r, Err(DecodeError::UnknownType("bogus".to_string())));
}

#[test]
fn unknown_type_of_a_value_built_by_hand() {
    let value = Json::Object(vec![member("type", text("bogus")), member("id", text("x"))]);
    assert_eq!(decode_value(&value), Err(DecodeError::UnknownType("bogus".to_string())));
    assert_eq!(
        DSLParser::new().parse_component_value(&value),
        Err(DecodeError::UnknownType("bogus".to_string()))
    );
}

#[test]
fn a_node_without_a_type_has_the_empty_tag() {
    assert_eq!(parse("[{\"id\":\"x\"}]"), Err(DecodeError::UnknownType(String::new())));
    assert_eq!(parse("[{\"type\":7,\"id\":\"x\"}]"), Err(DecodeError::UnknownType(String::new())));
    assert_eq!(parse("[42]"), Err(DecodeError::UnknownType(String::new())));
}

#[test]
fn a_missing_id_is_reported() {
    assert_eq!(parse("[{\"type\":\"text\"}]"), Err(DecodeError::MissingId));
    assert_eq!(parse("[{\"type\":\"text\",\"id\":5}]"), Err(DecodeError::MissingId));
    assert_eq!(parse("[{\"type\":\"text\",\"id\":\"\"}]"), Err(DecodeError::MissingId));
}

#[test]
fn the_type_is_checked_before_the_id() {
    assert_eq!(parse("[{}]"), Err(DecodeError::UnknownType(String::new())));
    assert_eq!(parse("[{\"type\":\"bogus\"}]"), Err(DecodeError::MissingId));
}

#[test]
fn malformed_props_are_reported() {
    let r = parse("[{\"type\":\"text\",\"id\":\"t\",\"props\":5}]");
    assert_eq!(r, Err(DecodeError::MalformedProps));
    let r = parse("[{\"type\":\"text\",\"id\":\"t\",\"props\":[1]}]");
    assert_eq!(r, Err(DecodeError::MalformedProps));
}

#[test]
fn null_props_count_as_absent() {
    match one("[{\"type\":\"text\",\"id\":\"t\",\"props\":null}]") {
        UIComponent::Text(p) => assert_eq!(p.content, ""),
        other => panic!("not a text: {:?}", other),
    }
}

#[test]
fn a_text_that_is_no_array_is_malformed() {
    assert_eq!(parse("{\"type\":\"text\",\"id\":\"t\"}"), Err(DecodeError::MalformedProps));
    assert_eq!(parse("not json"), Err(DecodeError::MalformedProps));
    assert_eq!(parse(""), Err(DecodeError::MalformedProps));
    assert_eq!(parse("[]"), Ok(vec![]));
}

#[test]
fn window_defaults() {
    match one("[{\"type\":\"window\",\"id\":\"w\"}]") {
        UIComponent::Window(p) => {
            assert_eq!(p.id, "w");
            assert_eq!(p.title, "Window");
            assert_eq!(p.width, Number::PosInt(400));
            assert_eq!(p.height, Number::PosInt(300));
            assert_eq!(p.x, None);
            assert_eq!(p.y, None);
            assert_eq!(p.resizable, None);
            assert_eq!(p.draggable, None);
            assert!(p.children.is_empty());
        }
        other => panic!("not a window: {:?}", other),
    }
}

#[test]
fn window_properties() {
    let text = "[{\"type\":\"window\",\"id\":\"w\",\"props\":{\"title\":\"Main\",\"width\":640,\
                \"height\":480.5,\"x\":-10,\"y\":20,\"resizable\":false,\"draggable\":true,\
                \"unknown\":[1,2]}}]";
    match one(text) {
        UIComponent::Window(p) => {
            assert_eq!(p.title, "Main");
            assert_eq!(p.width, Number::PosInt(640));
            assert_eq!(p.height, Number::Float(480.5f64.to_bits()));
            assert_eq!(p.x, Some(Number::NegInt(-10)));
            assert_eq!(p.y, Some(Number::PosInt(20)));
            assert_eq!(p.resizable, Some(false));
            assert_eq!(p.draggable, Some(true));
        }
        other => panic!("not a window: {:?}", other),
    }
}

#[test]
fn a_property_of_the_wrong_type_counts_as_absent() {
    let text = "[{\"type\":\"window\",\"id\":\"w\",\"props\":{\"title\":7,\"width\":\"wide\",\
                \"resizable\":\"yes\"}}]";
    match one(text) {
        UIComponent::Window(p) => {
            assert_eq!(p.title, "Window");
            assert_eq!(p.width, Number::PosInt(400));
            assert_eq!(p.resizable, None);
        }
        other => panic!("not a window: {:?}", other),
    }
}

#[test]
fn button_defaults_and_properties() {
    match one("[{\"type\":\"button\",\"id\":\"b\"}]") {
        UIComponent::Button(p) => {
            assert_eq!(p.text, "Button");
            assert_eq!(p.width, None);
            assert_eq!(p.height, None);
            assert_eq!(p.on_click, None);
            assert_eq!(p.icon, None);
            assert_eq!(p.style, Some(vec![]));
        }
        other => panic!("not a button: {:?}", other),
    }
    let text = "[{\"type\":\"button\",\"id\":\"b\",\"props\":{\"text\":\"Go\",\"width\":80,\
                \"height\":24,\"on_click\":\"go\",\"icon\":\"go.png\",\
                \"style\":{\"color\":\"red\",\"border\":1,\"backgroundColor\":\"rgb(1,2,3)\"}}}]";
    match one(text) {
        UIComponent::Button(p) => {
            assert_eq!(p.text, "Go");
            assert_eq!(p.width, Some(Number::PosInt(80)));
            assert_eq!(p.height, Some(Number::PosInt(24)));
            assert_eq!(p.on_click, Some("go".to_string()));
            assert_eq!(p.icon, Some("go.png".to_string()));
            let style = p.style.unwrap();
            assert_eq!(style.len(), 2);
            assert!(style.contains(&Entry {
                key: "color".to_string(),
                value: "red".to_string()
            }));
            assert!(style.contains(&Entry {
                key: "backgroundColor".to_string(),
                value: "rgb(1,2,3)".to_string()
            }));
        }
        other => panic!("not a button: {:?}", other),
    }
}

#[test]
fn a_later_style_entry_replaces_an_earlier_one_with_the_same_key() {
    let style = Json::Object(vec![
        member("color", text("red")),
        member("font", text("mono")),
        member("color", text("blue")),
        member("size", Json::Number(Number::PosInt(3))),
    ]);
    let value = node("button", "b", vec![member("style", style)], vec![]);
    match decode_value(&value).unwrap() {
        UIComponent::Button(p) => {
            assert_eq!(
                p.style,
                Some(vec![
                    Entry { key: "color".to_string(), value: "blue".to_string() },
                    Entry { key: "font".to_string(), value: "mono".to_string() },
                ])
            );
        }
        other => panic!("not a button: {:?}", other),
    }
}

#[test]
fn text_image_canvas_and_svg() {
    let text = "[{\"type\":\"text\",\"id\":\"t\",\"props\":{\"content\":\"Hi\",\"size\":12,\
                \"color\":\"red\",\"align\":\"center\",\"font\":\"f.ttf\"}},\
                {\"type\":\"image\",\"id\":\"i\",\"props\":{\"source\":\"a.png\",\"scale\":2}},\
                {\"type\":\"canvas\",\"id\":\"c\",\"props\":{\"on_draw\":\"draw\"}},\
                {\"type\":\"svg\",\"id\":\"s\",\"props\":{\"width\":10}}]";
    let all = parse(text).unwrap();
    assert_eq!(all.len(), 4);
    match &all[0] {
        UIComponent::Text(p) => {
            assert_eq!(p.content, "Hi");
            assert_eq!(p.size, Some(Number::PosInt(12)));
            assert_eq!(p.color, Some("red".to_string()));
            assert_eq!(p.align, Some("center".to_string()));
            assert_eq!(p.font, Some("f.ttf".to_string()));
        }
        other => panic!("not a text: {:?}", other),
    }
    match &all[1] {
        UIComponent::Image(p) => {
            assert_eq!(p.source, "a.png");
            assert_eq!(p.width, None);
            assert_eq!(p.scale, Some(Number::PosInt(2)));
        }
        other => panic!("not an image: {:?}", other),
    }
    match &all[2] {
        UIComponent::Canvas(p) => {
            assert_eq!(p.width, Number::PosInt(200));
            assert_eq!(p.height, Number::PosInt(200));
            assert_eq!(p.on_draw, Some("draw".to_string()));
            assert_eq!(p.on_click, None);
        }
        other => panic!("not a canvas: {:?}", other),
    }
    match &all[3] {
        UIComponent::SVG(p) => {
            assert_eq!(p.source, "");
            assert_eq!(p.width, Some(Number::PosInt(10)));
            assert_eq!(p.height, None);
        }
        other => panic!("not a vector graphic: {:?}", other),
    }
}

#[test]
fn grid_input_and_list() {
    let text = "[{\"type\":\"grid\",\"id\":\"g\"},\
                {\"type\":\"grid\",\"id\":\"h\",\"props\":{\"columns\":3,\"rows\":2,\"spacing\":1.5}},\
                {\"type\":\"grid\",\"id\":\"k\",\"props\":{\"columns\":-3}},\
                {\"type\":\"input\",\"id\":\"n\",\"props\":{\"placeholder\":\"name\",\
                \"on_submit\":\"send\"}},\
                {\"type\":\"list\",\"id\":\"l\",\"props\":{\"direction\":\"horizontal\"}}]";
    let all = parse(text).unwrap();
    match &all[0] {
        UIComponent::Grid(p) => {
            assert_eq!(p.columns, 2);
            assert_eq!(p.rows, None);
            assert_eq!(p.spacing, None);
        }
        other => panic!("not a grid: {:?}", other),
    }
    match &all[1] {
        UIComponent::Grid(p) => {
            assert_eq!(p.columns, 3);
            assert_eq!(p.rows, Some(2));
            assert_eq!(p.spacing, Some(Number::Float(1.5f64.to_bits())));
        }
        other => panic!("not a grid: {:?}", other),
    }
    match &all[2] {
        UIComponent::Grid(p) => assert_eq!(p.columns, 2),
        other => panic!("not a grid: {:?}", other),
    }
    match &all[3] {
        UIComponent::Input(p) => {
            assert_eq!(p.placeholder, Some("name".to_string()));
            assert_eq!(p.value, None);
            assert_eq!(p.on_change, None);
            assert_eq!(p.on_submit, Some("send".to_string()));
        }
        other => panic!("not an input: {:?}", other),
    }
    match &all[4] {
        UIComponent::List(p) => {
            assert_eq!(p.direction, Some("horizontal".to_string()));
            assert!(p.items.is_empty());
        }
        other => panic!("not a list: {:?}", other),
    }
}

#[test]
fn viewport_and_its_camera() {
    let text = "[{\"type\":\"viewport3d\",\"id\":\"a\"},\
                {\"type\":\"viewport3d\",\"id\":\"b\",\"props\":{\"scene\":\"s\",\"camera\":{}}},\
                {\"type\":\"viewport3d\",\"id\":\"c\",\"props\":{\"camera\":\
                {\"position\":[1,\"x\",3.5,9],\"target\":[1,2]}}}]";
    let all = parse(text).unwrap();
    match &all[0] {
        UIComponent::Viewport3D(p) => {
            assert_eq!(p.width, Number::PosInt(300));
            assert_eq!(p.height, Number::PosInt(300));
            assert_eq!(p.scene, None);
            assert_eq!(p.camera, None);
        }
        other => panic!("not a viewport: {:?}", other),
    }
    match &all[1] {
        UIComponent::Viewport3D(p) => {
            assert_eq!(p.scene, Some("s".to_string()));
            let camera = p.camera.unwrap();
            assert_eq!(
                camera.position,
                [Number::PosInt(0), Number::PosInt(5), Number::PosInt(10)]
            );
            assert_eq!(camera.target, [Number::PosInt(0), Number::PosInt(0), Number::PosInt(0)]);
        }
        other => panic!("not a viewport: {:?}", other),
    }
    match &all[2] {
        UIComponent::Viewport3D(p) => {
            let camera = p.camera.unwrap();
            assert_eq!(
                camera.position,
                [Number::PosInt(1), Number::PosInt(5), Number::Float(3.5f64.to_bits())]
            );
            assert_eq!(camera.target, [Number::PosInt(0), Number::PosInt(0), Number::PosInt(0)]);
        }
        other => panic!("not a viewport: {:?}", other),
    }
}

#[test]
fn children_are_decoded_in_order() {
    let text = "[{\"type\":\"column\",\"id\":\"col\",\"props\":{\"spacing\":2,\"align\":\"end\"},\
                \"children\":[{\"type\":\"text\",\"id\":\"a\"},\
                {\"type\":\"row\",\"id\":\"r\",\"children\":[{\"type\":\"button\",\"id\":\"b\"}]},\
                {\"type\":\"stack\",\"id\":\"s\"},{\"type\":\"scrollview\",\"id\":\"v\"}]}]";
    match one(text) {
        UIComponent::Column(p) => {
            assert_eq!(p.spacing, Some(Number::PosInt(2)));
            assert_eq!(p.align, Some("end".to_string()));
            let ids: Vec<&str> = p.children.iter().map(|c| c.id().as_str()).collect();
            assert_eq!(ids, vec!["a", "r", "s", "v"]);
            match &p.children[1] {
                UIComponent::Row(r) => {
                    assert_eq!(r.children.len(), 1);
                    assert_eq!(r.children[0].id(), "b");
                    assert_eq!(r.children[0].type_tag(), "button");
                }
                other => panic!("not a row: {:?}", other),
            }
            match &p.children[3] {
                UIComponent::ScrollView(v) => {
                    assert_eq!(v.width, Number::PosInt(200));
                    assert_eq!(v.height, Number::PosInt(200));
                }
                other => panic!("not a scroll view: {:?}", other),
            }
        }
        other => panic!("not a column: {:?}", other),
    }
}

#[test]
fn a_leaf_drops_its_children_but_they_must_decode() {
    let good = "[{\"type\":\"text\",\"id\":\"t\",\"children\":[{\"type\":\"text\",\"id\":\"u\"}]}]";
    match one(good) {
        UIComponent::Text(p) => assert_eq!(p.id, "t"),
        other => panic!("not a text: {:?}", other),
    }
    let bad = "[{\"type\":\"text\",\"id\":\"t\",\"children\":[{\"type\":\"text\"}]}]";
    assert_eq!(parse(bad), Err(DecodeError::MissingId));
}

#[test]
fn children_that_are_no_array_count_as_none() {
    match one("[{\"type\":\"stack\",\"id\":\"s\",\"children\":{\"type\":\"bogus\"}}]") {
        UIComponent::Stack(p) => assert!(p.children.is_empty()),
        other => panic!("not a stack: {:?}", other),
    }
}

#[test]
fn one_failing_child_fails_the_whole_payload() {
    let text = "[{\"type\":\"text\",\"id\":\"ok\"},\
                {\"type\":\"window\",\"id\":\"w\",\"children\":[{\"type\":\"text\",\"id\":\"a\"},\
                {\"type\":\"nope\",\"id\":\"b\"}]},\
                {\"type\":\"text\"}]";
    assert_eq!(parse(text), Err(DecodeError::UnknownType("nope".to_string())));
}

#[test]
fn the_first_failure_in_document_order_is_reported() {
    let text = "[{\"type\":\"bogus\",\"id\":\"w\",\"children\":[{\"type\":\"text\"}]}]";
    assert_eq!(parse(text), Err(DecodeError::MissingId));
    let text = "[{\"type\":\"text\"},{\"type\":\"bogus\",\"id\":\"x\"}]";
    assert_eq!(parse(text), Err(DecodeError::MissingId));
}

#[test]
fn decode_takes_the_nodes_of_a_payload() {
    let payload = vec![
        node("row", "r", vec![], vec![node("text", "t", vec![member("content", text("x"))], vec![])]),
        node("stack", "s", vec![], vec![]),
    ];
    let all = decode(&payload).unwrap();
    assert_eq!(all.len(), 2);
    assert_eq!(all[0].id(), "r");
    assert_eq!(all[1].id(), "s");
    assert_eq!(all[1].type_tag(), "stack");
    let broken = vec![node("stack", "s", vec![], vec![]), Json::Null];
    assert_eq!(decode(&broken), Err(DecodeError::UnknownType(String::new())));
}

#[test]
fn the_first_entry_with_a_key_is_the_member() {
    let value = Json::Object(vec![
        member("id", text("first")),
        member("type", text("text")),
        member("id", text("second")),
    ]);
    assert_eq!(value.get("id"), Some(&text("first")));
    assert_eq!(value.get("missing"), None);
    assert_eq!(Json::Null.get("id"), None);
    assert_eq!(decode_value(&value).unwrap().id(), "first");
}

#[test]
fn accessors_of_values() {
    assert_eq!(text("a").as_str(), Some(&"a".to_string()));
    assert_eq!(Json::Null.as_str(), None);
    assert_eq!(Json::Bool(true).as_bool(), Some(true));
    assert_eq!(text("true").as_bool(), None);
    assert_eq!(Json::Number(Number::PosInt(3)).as_number(), Some(Number::PosInt(3)));
    assert_eq!(Json::Number(Number::PosInt(3)).as_u64(), Some(3));
    assert_eq!(Json::Number(Number::NegInt(-3)).as_u64(), None);
    assert_eq!(Json::Number(Number::Float(0)).as_u64(), None);
    assert_eq!(Json::Array(vec![Json::Null]).as_array(), Some(&vec![Json::Null]));
    assert_eq!(Json::Null.as_array(), None);
    assert_eq!(Json::Object(vec![]).as_object(), Some(&vec![]));
    assert_eq!(Json::Array(vec![]).as_object(), None);
    assert_eq!(Number::PosInt(7).as_u64(), Some(7));
}

#[test]
fn numbers_keep_the_form_the_text_gave_them() {
    let text = "[{\"type\":\"image\",\"id\":\"i\",\"props\":{\"width\":18446744073709551615,\
                \"height\":-9223372036854775808,\"scale\":0.25}}]";
    match one(text) {
        UIComponent::Image(p) => {
            assert_eq!(p.width, Some(Number::PosInt(u64::MAX)));
            assert_eq!(p.height, Some(Number::NegInt(i64::MIN)));
            match p.scale {
                Some(Number::Float(bits)) => assert_eq!(f64::from_bits(bits), 0.25),
                other => panic!("not a fraction: {:?}", other),
            }
        }
        other => panic!("not an image: {:?}", other),
    }
}

#[test]
fn messages_of_decode_errors() {
    assert_eq!(
        DecodeError::UnknownType("bogus".to_string()).message(),
        "Type de composant inconnu: bogus"
    );
    assert_eq!(DecodeError::MissingId.message(), "ID de composant manquant");
    assert_eq!(
        DecodeError::MalformedProps.message(),
        "Erreur lors de la désérialisation JSON"
    );
}

#[test]
fn an_exported_tree_is_the_result_of_the_evaluation() {
    let parser = DSLParser::new();
    let outcome = ScriptOutcome::Exported("[{\"type\":\"text\",\"id\":\"t\"}]".to_string());
    let result = parser.evaluate_dsl(&outcome).unwrap();
    assert_eq!(result.components.len(), 1);
    assert!(result.errors.is_empty());
    let outcome = ScriptOutcome::Exported("[{\"type\":\"bogus\",\"id\":\"t\"}]".to_string());
    assert_eq!(
        parser.evaluate_dsl(&outcome),
        Err("Type de composant inconnu: bogus".to_string())
    );
}

#[test]
fn an_error_of_the_script_is_part_of_the_result() {
    let parser = DSLParser::new();
    let result = parser.evaluate_dsl(&ScriptOutcome::Raised("NameError".to_string())).unwrap();
    assert!(result.components.is_empty());
    assert_eq!(result.errors, vec!["Erreur d'évaluation: NameError".to_string()]);
    assert_eq!(
        parser.evaluate_dsl(&ScriptOutcome::Failed("no interpreter".to_string())),
        Err("no interpreter".to_string())
    );
}
