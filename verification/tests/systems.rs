use ui_dsl::dsl::parser::{DSLParser, ScriptOutcome};
use ui_dsl::ui::builder::changes::UpdateError;
use ui_dsl::ui::builder::UIBuilder;
use ui_dsl::ui::components::{
    CallbackError, Entry, ResizeEdge, RubyCallbackEvent, UIComponent, UIComponentUpdate,
    UIUpdateEvent,
};
use ui_dsl::ui::systems::{
    button_click_system, handle_ruby_callbacks, handle_ui_updates, hot_reload_system,
    initialize_dsl, input_focus_system, input_interaction_system, join_lines, ReloadAction,
    ReloadError, ReloadEvent,
    ReloadPhase, UIDSLState, UIHotReload,
};

fn tree(text: &str) -> Vec<UIComponent> {
    DSLParser::new().parse_components_json(text).unwrap()
}

fn built(text: &str) -> UIBuilder {
    let mut builder = UIBuilder::new();
    builder.build_ui(&tree(text));
    builder
}

fn entry(key: &str, value: &str) -> Entry {
    Entry { key: key.to_string(), value: value.to_string() }
}

fn exported(text: &str) -> ScriptOutcome {
    ScriptOutcome::Exported(text.to_string())
}

fn live_nodes(state: &UIDSLState) -> usize {
    (0..state.builder.node_count()).filter(|h| state.builder.is_live(*h)).count()
}

const FIRST: &str = "[{\"type\":\"window\",\"id\":\"w\",\"children\":[{\"type\":\"text\",\"id\":\"t\"}]}]";
const SECOND: &str = "[{\"type\":\"text\",\"id\":\"t\"},{\"type\":\"button\",\"id\":\"b\"}]";

#[test]
fn the_state_starts_empty() {
    let state = UIDSLState::default();
    assert_eq!(state.builder.node_count(), 0);
    assert!(state.parser.is_none());
    assert!(state.last_eval.is_none());
    let hot = UIHotReload::starting_at(17);
    assert!(hot.enabled);
    assert_eq!(hot.script_path, "scripts/ui.rb");
    assert_eq!(hot.last_modified, 17);
    assert_eq!(hot.phase, ReloadPhase::Idle);
}

#[test]
fn an_evaluation_is_built() {
    let mut state = UIDSLState::default();
    assert_eq!(initialize_dsl(&mut state, &exported(FIRST)), Ok(()));
    assert!(state.parser.is_some());
    assert_eq!(state.builder.lookup("w"), Some(0));
    assert_eq!(state.builder.lookup("t"), Some(6));
    assert_eq!(state.last_eval.as_ref().unwrap().components.len(), 1);
    assert!(state.last_eval.as_ref().unwrap().errors.is_empty());
}

#[test]
fn an_evaluation_that_fails_leaves_the_interface_alone() {
    let mut state = UIDSLState::default();
    initialize_dsl(&mut state, &exported(FIRST)).unwrap();
    let r = initialize_dsl(&mut state, &ScriptOutcome::Raised("boom".to_string()));
    assert_eq!(r, Err("Erreur d'évaluation: boom".to_string()));
    assert_eq!(state.builder.lookup("w"), Some(0));
    assert_eq!(state.last_eval.as_ref().unwrap().components.len(), 1);
    let r = initialize_dsl(&mut state, &ScriptOutcome::Failed("no export".to_string()));
    assert_eq!(r, Err("no export".to_string()));
    let r = initialize_dsl(&mut state, &exported("[{\"type\":\"text\"}]"));
    assert_eq!(r, Err("ID de composant manquant".to_string()));
    let r = initialize_dsl(&mut state, &exported("{}"));
    assert_eq!(r, Err("Erreur lors de la désérialisation JSON".to_string()));
    assert_eq!(state.builder.lookup("t"), Some(6));
    assert_eq!(live_nodes(&state), 7);
}

#[test]
fn lines_are_joined_by_line_feeds() {
    assert_eq!(join_lines(&vec![]), "");
    assert_eq!(join_lines(&vec!["a".to_string()]), "a");
    assert_eq!(join_lines(&vec!["a".to_string(), "".to_string(), "c".to_string()]), "a\n\nc");
}

#[test]
fn a_tick_starts_a_cycle_when_hot_reload_is_on() {
    let mut state = UIDSLState::default();
    let mut hot = UIHotReload::starting_at(10);
    hot.enabled = false;
    assert_eq!(hot_reload_system(&mut hot, &mut state, ReloadEvent::Tick), ReloadAction::Nothing);
    assert_eq!(hot.phase, ReloadPhase::Idle);
    hot.enabled = true;
    assert_eq!(
        hot_reload_system(&mut hot, &mut state, ReloadEvent::Tick),
        ReloadAction::CheckTimestamp
    );
    assert_eq!(hot.phase, ReloadPhase::Detecting);
    assert_eq!(hot.last_modified, 10);
}

#[test]
fn an_unchanged_script_ends_the_cycle() {
    let mut state = UIDSLState::default();
    initialize_dsl(&mut state, &exported(FIRST)).unwrap();
    for found in [Some(10), Some(9), None] {
        let mut hot = UIHotReload::starting_at(10);
        hot_reload_system(&mut hot, &mut state, ReloadEvent::Tick);
        let action = hot_reload_system(&mut hot, &mut state, ReloadEvent::Timestamp(found));
        assert_eq!(action, ReloadAction::Nothing);
        assert_eq!(hot.phase, ReloadPhase::Idle);
        assert_eq!(hot.last_modified, 10);
        assert_eq!(state.builder.lookup("w"), Some(0));
    }
}

#[test]
fn a_changed_script_is_read_evaluated_and_built() {
    let mut state = UIDSLState::default();
    initialize_dsl(&mut state, &exported(FIRST)).unwrap();
    let mut hot = UIHotReload::starting_at(10);
    hot_reload_system(&mut hot, &mut state, ReloadEvent::Tick);
    let action = hot_reload_system(&mut hot, &mut state, ReloadEvent::Timestamp(Some(11)));
    assert_eq!(action, ReloadAction::ReadScript);
    assert_eq!(hot.phase, ReloadPhase::Reading);
    assert_eq!(hot.last_modified, 11);
    assert_eq!(state.builder.lookup("w"), Some(0));
    let action =
        hot_reload_system(&mut hot, &mut state, ReloadEvent::Script(Some("text id: 't'".to_string())));
    assert_eq!(action, ReloadAction::Evaluate("text id: 't'".to_string()));
    assert_eq!(hot.phase, ReloadPhase::Evaluating);
    assert_eq!(live_nodes(&state), 0);
    assert_eq!(state.builder.lookup("w"), None);
    let action = hot_reload_system(&mut hot, &mut state, ReloadEvent::Evaluation(exported(SECOND)));
    assert_eq!(action, ReloadAction::Rebuilt);
    assert_eq!(hot.phase, ReloadPhase::Idle);
    assert_eq!(state.builder.lookup("w"), None);
    assert_eq!(state.builder.lookup("t"), Some(7));
    assert_eq!(state.builder.lookup("b"), Some(8));
    assert_eq!(state.builder.roots(), &vec![7, 8]);
    assert_eq!(live_nodes(&state), 3);
    assert_eq!(state.last_eval.as_ref().unwrap().components.len(), 2);
}

#[test]
fn a_script_that_cannot_be_read_leaves_the_interface_alone() {
    let mut state = UIDSLState::default();
    initialize_dsl(&mut state, &exported(FIRST)).unwrap();
    let mut hot = UIHotReload::starting_at(10);
    hot_reload_system(&mut hot, &mut state, ReloadEvent::Tick);
    hot_reload_system(&mut hot, &mut state, ReloadEvent::Timestamp(Some(11)));
    let action = hot_reload_system(&mut hot, &mut state, ReloadEvent::Script(None));
    assert_eq!(action, ReloadAction::Report(ReloadError::ReadFailed));
    assert_eq!(hot.phase, ReloadPhase::Idle);
    assert_eq!(hot.last_modified, 11);
    assert_eq!(state.builder.lookup("w"), Some(0));
    assert_eq!(live_nodes(&state), 7);
}

#[test]
fn a_reload_that_fails_to_decode_leaves_nothing() {
    let outcomes = vec![
        (exported("[{\"type\":\"bogus\",\"id\":\"x\"}]"), "Type de composant inconnu: bogus"),
        (exported("[{\"type\":\"text\",\"id\":\"ok\"},{\"type\":\"text\"}]"), "ID de composant manquant"),
        (exported("nonsense"), "Erreur lors de la désérialisation JSON"),
        (ScriptOutcome::Raised("boom".to_string()), "Erreur d'évaluation: boom"),
        (ScriptOutcome::Failed("no export".to_string()), "no export"),
    ];
    for (outcome, message) in outcomes {
        let mut state = UIDSLState::default();
        initialize_dsl(&mut state, &exported(FIRST)).unwrap();
        let mut hot = UIHotReload::starting_at(10);
        hot_reload_system(&mut hot, &mut state, ReloadEvent::Tick);
        hot_reload_system(&mut hot, &mut state, ReloadEvent::Timestamp(Some(20)));
        hot_reload_system(&mut hot, &mut state, ReloadEvent::Script(Some("changed".to_string())));
        let action = hot_reload_system(&mut hot, &mut state, ReloadEvent::Evaluation(outcome));
        assert_eq!(
            action,
            ReloadAction::Report(ReloadError::ReevaluationFailed(message.to_string()))
        );
        assert_eq!(hot.phase, ReloadPhase::Idle);
        assert_eq!(live_nodes(&state), 0);
        assert!(state.builder.roots().is_empty());
        for id in ["w", "t", "ok", "x"] {
            assert_eq!(state.builder.lookup(id), None);
        }
        assert!(state.builder.failures().is_empty());
    }
}

#[test]
fn an_event_out_of_turn_changes_nothing() {
    let mut state = UIDSLState::default();
    initialize_dsl(&mut state, &exported(FIRST)).unwrap();
    let mut hot = UIHotReload::starting_at(10);
    let events = vec![
        ReloadEvent::Timestamp(Some(99)),
        ReloadEvent::Script(Some("x".to_string())),
        ReloadEvent::Evaluation(exported(SECOND)),
    ];
    for event in events {
        assert_eq!(hot_reload_system(&mut hot, &mut state, event), ReloadAction::Nothing);
        assert_eq!(hot, UIHotReload::starting_at(10));
        assert_eq!(state.builder.lookup("w"), Some(0));
    }
    hot_reload_system(&mut hot, &mut state, ReloadEvent::Tick);
    assert_eq!(hot_reload_system(&mut hot, &mut state, ReloadEvent::Tick), ReloadAction::Nothing);
    assert_eq!(hot.phase, ReloadPhase::Detecting);
}

#[test]
fn a_press_on_a_bound_button_asks_for_its_callback() {
    let builder = built(
        "[{\"type\":\"button\",\"id\":\"go\",\"props\":{\"on_click\":\"start\"}},\
         {\"type\":\"button\",\"id\":\"idle\"},\
         {\"type\":\"canvas\",\"id\":\"c\",\"props\":{\"on_click\":\"hit\"}},\
         {\"type\":\"window\",\"id\":\"w\"}]",
    );
    let go = builder.lookup("go").unwrap();
    assert_eq!(
        button_click_system(&builder, go),
        Some(RubyCallbackEvent {
            callback: "start".to_string(),
            arguments: vec![entry("id", "go"), entry("event", "click")],
        })
    );
    assert_eq!(button_click_system(&builder, go + 1), None);
    assert_eq!(button_click_system(&builder, builder.lookup("idle").unwrap()), None);
    assert_eq!(button_click_system(&builder, builder.lookup("c").unwrap()), None);
    let close = builder.lookup("w").unwrap() + 3;
    assert_eq!(button_click_system(&builder, close), None);
    assert_eq!(button_click_system(&builder, 1000), None);
}

#[test]
fn enter_in_a_bound_input_submits_its_text() {
    let mut builder = built(
        "[{\"type\":\"input\",\"id\":\"name\",\"props\":{\"value\":\"Ann\",\"on_submit\":\"send\"}},\
         {\"type\":\"input\",\"id\":\"quiet\",\"props\":{\"on_change\":\"changed\"}},\
         {\"type\":\"button\",\"id\":\"b\",\"props\":{\"on_click\":\"go\"}}]",
    );
    let name = builder.lookup("name").unwrap();
    assert_eq!(
        input_interaction_system(&builder, name),
        Some(RubyCallbackEvent {
            callback: "send".to_string(),
            arguments: vec![entry("id", "name"), entry("event", "submit"), entry("value", "Ann")],
        })
    );
    builder.update_component("name", &UIComponentUpdate::SetText("Bob".to_string())).unwrap();
    assert_eq!(
        input_interaction_system(&builder, name).unwrap().arguments[2],
        entry("value", "Bob")
    );
    assert_eq!(input_interaction_system(&builder, builder.lookup("quiet").unwrap()), None);
    assert_eq!(input_interaction_system(&builder, builder.lookup("b").unwrap()), None);
    assert_eq!(input_interaction_system(&builder, name + 1), None);
    assert_eq!(input_interaction_system(&builder, 1000), None);
}

#[test]
fn an_answer_with_updates_asks_for_them() {
    let answer = "{\"updates\":[{\"id\":\"t\",\"action\":\"setText\",\"value\":\"Hi\"},\
                  {\"id\":\"t\",\"action\":\"blink\",\"value\":1},\
                  {\"id\":\"t\",\"action\":\"setText\",\"value\":5},\
                  {\"id\":\"t\",\"action\":\"setText\"},\
                  {\"action\":\"setText\",\"value\":\"x\"},\
                  {\"id\":7,\"action\":\"fade\",\"value\":\"x\"},\
                  {\"id\":\"u\",\"action\":\"setText\",\"value\":\"\"}]}";
    let outcome = handle_ruby_callbacks(&Ok(answer.to_string()));
    assert_eq!(
        outcome.updates,
        vec![
            UIUpdateEvent {
                id: "t".to_string(),
                update: UIComponentUpdate::SetText("Hi".to_string())
            },
            UIUpdateEvent { id: "u".to_string(), update: UIComponentUpdate::SetText(String::new()) },
        ]
    );
    assert_eq!(outcome.warnings, vec!["Action de mise à jour inconnue: blink".to_string()]);
    assert_eq!(outcome.error, None);
}

#[test]
fn any_other_answer_asks_for_nothing() {
    for answer in ["done", "", "42", "[]", "{}", "{\"updates\":{}}", "{\"updates\":\"x\"}", "{\"updates\":[]}"] {
        let outcome = handle_ruby_callbacks(&Ok(answer.to_string()));
        assert!(outcome.updates.is_empty());
        assert!(outcome.warnings.is_empty());
        assert_eq!(outcome.error, None);
    }
}

#[test]
fn a_failed_callback_carries_its_error_and_asks_for_nothing() {
    let outcome = handle_ruby_callbacks(&Err("undefined method".to_string()));
    assert!(outcome.updates.is_empty());
    assert!(outcome.warnings.is_empty());
    assert_eq!(outcome.error, Some(CallbackError::ScriptFailure("undefined method".to_string())));
}

#[test]
fn updates_are_applied_in_order_and_failures_collected() {
    let mut state = UIDSLState::default();
    initialize_dsl(&mut state, &exported(FIRST)).unwrap();
    let events = vec![
        UIUpdateEvent { id: "t".to_string(), update: UIComponentUpdate::SetText("one".to_string()) },
        UIUpdateEvent { id: "x".to_string(), update: UIComponentUpdate::SetVisible(false) },
        UIUpdateEvent { id: "t".to_string(), update: UIComponentUpdate::SetText("two".to_string()) },
        UIUpdateEvent { id: "y".to_string(), update: UIComponentUpdate::SetText("z".to_string()) },
    ];
    let errors = handle_ui_updates(&mut state, &events);
    assert_eq!(
        errors,
        vec![UpdateError::NotFound("x".to_string()), UpdateError::NotFound("y".to_string())]
    );
    let t = state.builder.lookup("t").unwrap();
    assert_eq!(state.builder.node(t).unwrap().text, Some("two".to_string()));
    assert!(handle_ui_updates(&mut state, &vec![]).is_empty());
}

#[test]
fn a_callback_round_from_press_to_update() {
    let mut state = UIDSLState::default();
    let text = "[{\"type\":\"text\",\"id\":\"t\"},\
                {\"type\":\"button\",\"id\":\"b\",\"props\":{\"on_click\":\"greet\"}}]";
    initialize_dsl(&mut state, &exported(text)).unwrap();
    state.builder.set_ruby_callback();
    let b = state.builder.lookup("b").unwrap();
    let event = button_click_system(&state.builder, b).unwrap();
    let request = state.builder.execute_ruby_callback(&event.callback, event.arguments).unwrap();
    assert_eq!(request.callback, "greet");
    let answer = Ok("{\"updates\":[{\"id\":\"t\",\"action\":\"setText\",\"value\":\"Hello\"}]}".to_string());
    let outcome = handle_ruby_callbacks(&answer);
    assert!(handle_ui_updates(&mut state, &outcome.updates).is_empty());
    let t = state.builder.lookup("t").unwrap();
    assert_eq!(state.builder.node(t).unwrap().text, Some("Hello".to_string()));
}

#[test]
fn the_edge_that_a_press_grabs() {
    let edge = ResizeEdge::from_hits;
    assert_eq!(edge(true, true, false, false), ResizeEdge::TopRight);
    assert_eq!(edge(false, true, true, false), ResizeEdge::BottomRight);
    assert_eq!(edge(false, false, true, true), ResizeEdge::BottomLeft);
    assert_eq!(edge(true, false, false, true), ResizeEdge::TopLeft);
    assert_eq!(edge(true, false, false, false), ResizeEdge::Top);
    assert_eq!(edge(false, true, false, false), ResizeEdge::Right);
    assert_eq!(edge(false, false, true, false), ResizeEdge::Bottom);
    assert_eq!(edge(false, false, false, true), ResizeEdge::Left);
    assert_eq!(edge(false, false, false, false), ResizeEdge::NoEdge);
    assert_eq!(edge(true, false, true, false), ResizeEdge::NoEdge);
    assert_eq!(edge(false, true, false, true), ResizeEdge::NoEdge);
    assert_eq!(edge(true, true, true, false), ResizeEdge::NoEdge);
    assert_eq!(edge(true, true, false, true), ResizeEdge::NoEdge);
    assert_eq!(edge(true, false, true, true), ResizeEdge::NoEdge);
    assert_eq!(edge(false, true, true, true), ResizeEdge::NoEdge);
    assert_eq!(edge(true, true, true, true), ResizeEdge::NoEdge);
}

#[test]
fn an_input_with_both_callbacks_submits_to_the_submit_callback() {
    let builder = built(
        "[{\"type\":\"input\",\"id\":\"n\",\"props\":{\"value\":\"v\",\"on_change\":\"changed\",\
         \"on_submit\":\"sent\"}}]",
    );
    let n = builder.lookup("n").unwrap();
    assert_eq!(builder.node(n).unwrap().callbacks.len(), 2);
    let event = input_interaction_system(&builder, n).unwrap();
    assert_eq!(event.callback, "sent");
    assert_eq!(
        event.arguments,
        vec![entry("id", "n"), entry("event", "submit"), entry("value", "v")]
    );
    assert_eq!(button_click_system(&builder, n), None);
}

#[test]
fn a_press_gives_the_focus_to_an_input_and_to_nothing_else() {
    let builder = built(
        "[{\"type\":\"input\",\"id\":\"first\",\"props\":{\"on_submit\":\"one\",\"value\":\"a\"}},\
         {\"type\":\"input\",\"id\":\"second\",\"props\":{\"on_submit\":\"two\",\"value\":\"b\"}},\
         {\"type\":\"button\",\"id\":\"b\",\"props\":{\"on_click\":\"go\"}}]",
    );
    let first = builder.lookup("first").unwrap();
    let second = builder.lookup("second").unwrap();
    let button = builder.lookup("b").unwrap();
    assert_eq!(input_focus_system(&builder, first), Some(first));
    assert_eq!(input_focus_system(&builder, second), Some(second));
    assert_eq!(input_focus_system(&builder, first + 1), None);
    assert_eq!(input_focus_system(&builder, button), None);
    assert_eq!(input_focus_system(&builder, 1000), None);
    let focus = input_focus_system(&builder, second).unwrap();
    let event = input_interaction_system(&builder, focus).unwrap();
    assert_eq!(event.callback, "two");
    assert_eq!(
        event.arguments,
        vec![entry("id", "second"), entry("event", "submit"), entry("value", "b")]
    );
}
