//! The per-frame decisions of the engine: what an interaction asks of the
//! script, what the script's answer asks of the render tree, and what a
//! hot-reload cycle does next.
//!
//! Nothing here reads a file, polls a device or runs a script. The host does
//! that and hands in what it found; each function answers with the new state
//! and with what the host is to do next.

use vstd::prelude::*;
use crate::dsl::parser::{
    evaluated, exported_text, DSLEvaluationResult, DSLParser, EvaluationView, ScriptOutcome,
    ScriptOutcomeView,
};
use crate::json::{items_view, json_text_value, lemma_items_view, parse_json, Json, JsonView};
use crate::text::{str_eq, string_is};
use crate::ui::builder::base::UIBuilder;
use crate::ui::builder::changes::{applied, UpdateError, UpdateErrorView};
use crate::ui::builder::model::{binding_of, build_roots, BuilderView};
use crate::ui::components::{
    CallbackError, CallbackErrorView, Entry, EntryView, EventCallback, RubyCallbackEvent,
    RubyCallbackEventView,
    UIComponentUpdate, UIUpdateEvent, UIUpdateEventView, UpdateView,
};
use crate::ui::native::NodeKind;

verus! {

/// The state of the engine: the builder with the live render tree, the
/// decoder once there is one, and the result of the last evaluation that
/// was built.
pub struct UIDSLState {
    pub builder: UIBuilder,
    pub parser: Option<DSLParser>,
    pub last_eval: Option<DSLEvaluationResult>,
}

impl Default for UIDSLState {
    fn default() -> (r: Self)
        ensures
            r.builder@.nodes.len() == 0,
            r.builder@.roots.len() == 0,
            r.builder@.registry == Map::<Seq<char>, usize>::empty(),
            r.builder@.failures.len() == 0,
            !r.builder@.bridged,
            r.builder@.wf(),
            r.parser is None,
            r.last_eval is None,
    {
        UIDSLState { builder: UIBuilder::new(), parser: None, last_eval: None }
    }
}

/// `lines` joined by line feeds.
pub open spec fn joined(lines: Seq<Seq<char>>) -> Seq<char>
    decreases lines.len(),
{
    if lines.len() == 0 {
        Seq::empty()
    } else if lines.len() == 1 {
        lines[0]
    } else {
        joined(lines.drop_last()) + seq!['\n'] + lines.last()
    }
}

/// `lines` joined by line feeds.
pub fn join_lines(lines: &Vec<String>) -> (r: String)
    ensures
        r@ == joined(lines.deep_view()),
{
    let ghost all = lines.deep_view();
    let mut out = String::new();
    let mut i: usize = 0;
    proof {
        assert(all.take(0) =~= Seq::empty());
        reveal_strlit("\n");
        assert("\n"@ =~= seq!['\n']);
    }
    while i < lines.len()
        invariant
            0 <= i <= lines.len(),
            all == lines.deep_view(),
            out@ == joined(all.take(i as int)),
            "\n"@ == seq!['\n'],
        decreases lines.len() - i,
    {
        proof {
            assert(all.take(i as int + 1).drop_last() =~= all.take(i as int));
            assert(all.take(i as int + 1).last() == lines@[i as int]@);
        }
        if i > 0 {
            out.append("\n");
        }
        out.append(lines[i].as_str());
        proof {
            if i == 0 {
                assert(out@ =~= lines@[0]@);
            }
        }
        i = i + 1;
    }
    proof {
        assert(all.take(i as int) =~= all);
    }
    out
}

/// What starting the interface from an evaluation yields: the state of the
/// builder and the verdict. An evaluation that failed, or whose script
/// raised errors, leaves the builder as it is and reports the message, the
/// errors joined by line feeds. Otherwise the builder is cleared and the
/// components are built as its roots.
pub open spec fn initialized(b: BuilderView, outcome: ScriptOutcomeView, parsed: Option<JsonView>) -> (
    BuilderView,
    Result<(), Seq<char>>,
) {
    match evaluated(outcome, parsed) {
        Err(message) => (b, Err(message)),
        Ok(evaluation) => if evaluation.errors.len() > 0 {
            (b, Err(joined(evaluation.errors)))
        } else {
            (build_roots(b.cleared(), evaluation.components, 0), Ok(()))
        },
    }
}

/// The verdict of [`initialize_dsl`], with its message viewed.
pub open spec fn verdict_view(r: Result<(), String>) -> Result<(), Seq<char>> {
    match r {
        Ok(()) => Ok(()),
        Err(m) => Err(m@),
    }
}

/// Starts the interface from what the evaluator reports of a script: makes
/// sure there is a decoder, decodes the exported tree and builds it; see
/// [`initialized`]. The evaluation that was built is kept as the last one.
pub fn initialize_dsl(dsl_state: &mut UIDSLState, outcome: &ScriptOutcome) -> (r: Result<
    (),
    String,
>)
    ensures
        (final(dsl_state).builder@, verdict_view(r)) == initialized(
            old(dsl_state).builder@,
            outcome@,
            json_text_value(exported_text(outcome@)),
        ),
        final(dsl_state).parser is Some,
        old(dsl_state).builder@.wf() ==> final(dsl_state).builder@.wf(),
        match r {
            Ok(()) => final(dsl_state).last_eval matches Some(e) && evaluated(
                outcome@,
                json_text_value(exported_text(outcome@)),
            ) == Ok::<EvaluationView, Seq<char>>(e@),
            Err(_) => final(dsl_state).last_eval == old(dsl_state).last_eval,
        },
{
    let parser = match dsl_state.parser {
        Some(p) => p,
        None => DSLParser::new(),
    };
    dsl_state.parser = Some(parser);
    let evaluation = match parser.evaluate_dsl(outcome) {
        Ok(e) => e,
        Err(message) => {
            return Err(message);
        },
    };
    if evaluation.errors.len() > 0 {
        return Err(join_lines(&evaluation.errors));
    }
    dsl_state.builder.build_ui(evaluation.components.as_slice());
    dsl_state.last_eval = Some(evaluation);
    Ok(())
}

/// Why a hot-reload cycle did not rebuild the interface.
#[derive(Debug, Clone, PartialEq, Eq)]
pub enum ReloadError {
    /// The script changed but could not be read. The interface stays as it
    /// was.
    ReadFailed,
    /// The script was read but its evaluation or its tree failed. The
    /// interface is empty.
    ReevaluationFailed(String),
}

/// Where a hot-reload cycle stands.
#[derive(Debug, Clone, Copy, PartialEq, Eq, Structural)]
pub enum ReloadPhase {
    /// Between cycles.
    Idle,
    /// Waiting for the modification time of the script.
    Detecting,
    /// The script changed; waiting for its text.
    Reading,
    /// The old interface is gone; waiting for the evaluation of the new
    /// script.
    Evaluating,
}

/// The hot-reload settings and the progress of the current cycle.
#[derive(Debug, Clone, PartialEq, Eq)]
pub struct UIHotReload {
    /// Whether hot reload is switched on.
    pub enabled: bool,
    /// The path of the script.
    pub script_path: String,
    /// The modification time of the script when it was last seen to change.
    pub last_modified: u64,
    /// Where the current cycle stands.
    pub phase: ReloadPhase,
}

/// What the host found for the engine.
#[derive(Debug, Clone, PartialEq, Eq)]
pub enum ReloadEvent {
    /// A frame begins.
    Tick,
    /// The modification time of the script, or `None` where it cannot be
    /// had.
    Timestamp(Option<u64>),
    /// The text of the script, or `None` where it cannot be read.
    Script(Option<String>),
    /// What the evaluator reports of the script.
    Evaluation(ScriptOutcome),
}

/// What the host is to do next.
#[derive(Debug, Clone, PartialEq, Eq)]
pub enum ReloadAction {
    /// Nothing; the cycle is over or has not begun.
    Nothing,
    /// Look up the modification time of the script and hand it in.
    CheckTimestamp,
    /// Read the script and hand its text in.
    ReadScript,
    /// Evaluate this script and hand the outcome in.
    Evaluate(String),
    /// The interface was rebuilt.
    Rebuilt,
    /// The cycle failed.
    Report(ReloadError),
}

impl UIHotReload {
    /// The settings at start-up: hot reload is on for `scripts/ui.rb`, and
    /// only a change after `now` counts.
    pub fn starting_at(now: u64) -> (r: UIHotReload)
        ensures
            r.enabled,
            r.script_path@ == "scripts/ui.rb"@,
            r.last_modified == now,
            r.phase == ReloadPhase::Idle,
    {
        UIHotReload {
            enabled: true,
            script_path: "scripts/ui.rb".to_owned(),
            last_modified: now,
            phase: ReloadPhase::Idle,
        }
    }
}

/// Advances the hot-reload cycle by one event.
///
/// - Between cycles a tick starts one if hot reload is on: the host is to
///   check the modification time.
/// - A modification time later than the last one seen is a change: it is
///   remembered and the host is to read the script. Any other answer ends
///   the cycle.
/// - Once the script is read, every node is despawned and the registry
///   emptied, and the host is to evaluate the script. A script that cannot
///   be read ends the cycle with `ReadFailed` and the interface untouched.
/// - The evaluation is decoded and built as by [`initialize_dsl`]. Where
///   that fails the interface stays empty, registry included, and the
///   failure is reported.
/// - An event that the phase does not wait for changes nothing.
///
/// Only the step that builds an evaluation touches the decoder and the
/// record of the last evaluation, as [`initialize_dsl`] does.
pub fn hot_reload_system(
    hot_reload: &mut UIHotReload,
    dsl_state: &mut UIDSLState,
    event: ReloadEvent,
) -> (action: ReloadAction)
    ensures
        final(hot_reload).enabled == old(hot_reload).enabled,
        final(hot_reload).script_path == old(hot_reload).script_path,
        old(dsl_state).builder@.wf() ==> final(dsl_state).builder@.wf(),
        match (old(hot_reload).phase, event) {
            (ReloadPhase::Evaluating, ReloadEvent::Evaluation(outcome)) => {
                &&& final(dsl_state).parser is Some
                &&& match initialized(
                    old(dsl_state).builder@,
                    outcome@,
                    json_text_value(exported_text(outcome@)),
                ).1 {
                    Ok(()) => final(dsl_state).last_eval matches Some(e) && evaluated(
                        outcome@,
                        json_text_value(exported_text(outcome@)),
                    ) == Ok::<EvaluationView, Seq<char>>(e@),
                    Err(_) => final(dsl_state).last_eval == old(dsl_state).last_eval,
                }
            },
            _ => {
                &&& final(dsl_state).parser == old(dsl_state).parser
                &&& final(dsl_state).last_eval == old(dsl_state).last_eval
            },
        },
        match (old(hot_reload).phase, event) {
            (ReloadPhase::Idle, ReloadEvent::Tick) => {
                &&& final(dsl_state).builder@ == old(dsl_state).builder@
                &&& final(hot_reload).last_modified == old(hot_reload).last_modified
                &&& if old(hot_reload).enabled {
                    final(hot_reload).phase == ReloadPhase::Detecting && action
                        == ReloadAction::CheckTimestamp
                } else {
                    final(hot_reload).phase == ReloadPhase::Idle && action == ReloadAction::Nothing
                }
            },
            (ReloadPhase::Detecting, ReloadEvent::Timestamp(found)) => {
                &&& final(dsl_state).builder@ == old(dsl_state).builder@
                &&& match found {
                    Some(t) if t > old(hot_reload).last_modified => {
                        &&& final(hot_reload).last_modified == t
                        &&& final(hot_reload).phase == ReloadPhase::Reading
                        &&& action == ReloadAction::ReadScript
                    },
                    _ => {
                        &&& final(hot_reload).last_modified == old(hot_reload).last_modified
                        &&& final(hot_reload).phase == ReloadPhase::Idle
                        &&& action == ReloadAction::Nothing
                    },
                }
            },
            (ReloadPhase::Reading, ReloadEvent::Script(read)) => {
                &&& final(hot_reload).last_modified == old(hot_reload).last_modified
                &&& match read {
                    Some(text) => {
                        &&& final(dsl_state).builder@ == old(dsl_state).builder@.cleared()
                        &&& final(hot_reload).phase == ReloadPhase::Evaluating
                        &&& action == ReloadAction::Evaluate(text)
                    },
                    None => {
                        &&& final(dsl_state).builder@ == old(dsl_state).builder@
                        &&& final(hot_reload).phase == ReloadPhase::Idle
                        &&& action == ReloadAction::Report(ReloadError::ReadFailed)
                    },
                }
            },
            (ReloadPhase::Evaluating, ReloadEvent::Evaluation(outcome)) => {
                &&& final(hot_reload).last_modified == old(hot_reload).last_modified
                &&& final(hot_reload).phase == ReloadPhase::Idle
                &&& match initialized(
                    old(dsl_state).builder@,
                    outcome@,
                    json_text_value(exported_text(outcome@)),
                ).1 {
                    Ok(()) => {
                        &&& final(dsl_state).builder@ == initialized(
                            old(dsl_state).builder@,
                            outcome@,
                            json_text_value(exported_text(outcome@)),
                        ).0
                        &&& action == ReloadAction::Rebuilt
                    },
                    Err(message) => {
                        &&& final(dsl_state).builder@ == old(dsl_state).builder@.cleared()
                        &&& action matches ReloadAction::Report(
                            ReloadError::ReevaluationFailed(m),
                        )
                        &&& m@ == message
                    },
                }
            },
            _ => {
                &&& final(dsl_state).builder@ == old(dsl_state).builder@
                &&& final(hot_reload).last_modified == old(hot_reload).last_modified
                &&& final(hot_reload).phase == old(hot_reload).phase
                &&& action == ReloadAction::Nothing
            },
        },
{
    match (hot_reload.phase, event) {
        (ReloadPhase::Idle, ReloadEvent::Tick) => {
            if hot_reload.enabled {
                hot_reload.phase = ReloadPhase::Detecting;
                ReloadAction::CheckTimestamp
            } else {
                ReloadAction::Nothing
            }
        },
        (ReloadPhase::Detecting, ReloadEvent::Timestamp(found)) => {
            match found {
                Some(t) => {
                    if t > hot_reload.last_modified {
                        hot_reload.last_modified = t;
                        hot_reload.phase = ReloadPhase::Reading;
                        return ReloadAction::ReadScript;
                    }
                },
                None => {},
            }
            hot_reload.phase = ReloadPhase::Idle;
            ReloadAction::Nothing
        },
        (ReloadPhase::Reading, ReloadEvent::Script(read)) => {
            match read {
                Some(text) => {
                    dsl_state.builder.clear();
                    hot_reload.phase = ReloadPhase::Evaluating;
                    ReloadAction::Evaluate(text)
                },
                None => {
                    hot_reload.phase = ReloadPhase::Idle;
                    ReloadAction::Report(ReloadError::ReadFailed)
                },
            }
        },
        (ReloadPhase::Evaluating, ReloadEvent::Evaluation(outcome)) => {
            hot_reload.phase = ReloadPhase::Idle;
            match initialize_dsl(dsl_state, &outcome) {
                Ok(()) => ReloadAction::Rebuilt,
                Err(message) => {
                    dsl_state.builder.clear();
                    ReloadAction::Report(ReloadError::ReevaluationFailed(message))
                },
            }
        },
        _ => ReloadAction::Nothing,
    }
}

/// The arguments of every callback: the id of the component and the event.
pub open spec fn event_arguments(id: Seq<char>, event: Seq<char>) -> Seq<EntryView> {
    seq![EntryView { key: "id"@, value: id }, EntryView { key: "event"@, value: event }]
}

/// What a pointer press on the node `h` asks of the script: where the node
/// is a button that stands for a component and has a binding of `click`,
/// the function of its first such binding is invoked with the component's
/// id and the event.
pub open spec fn click_request(b: BuilderView, h: usize) -> Option<RubyCallbackEventView> {
    if b.live(h) && b.node(h).kind == NodeKind::Button {
        match (b.node(h).element, binding_of(b.node(h).callbacks, "click"@, 0)) {
            (Some(e), Some(function)) => Some(
                RubyCallbackEventView {
                    callback: function,
                    arguments: event_arguments(e.id, "click"@),
                },
            ),
            _ => None,
        }
    } else {
        None
    }
}

/// What the Enter key asks of the script while the node `h` has the focus:
/// where the node is an input field with a binding of `submit`, the
/// function of its first such binding is invoked with the component's id,
/// the event, and as `value` the text the field holds, empty where it holds
/// none.
pub open spec fn submit_request(b: BuilderView, h: usize) -> Option<RubyCallbackEventView> {
    if b.live(h) {
        match (b.node(h).element, binding_of(b.node(h).callbacks, "submit"@, 0)) {
            (Some(e), Some(function)) => if e.component_type == "input"@ {
                Some(
                    RubyCallbackEventView {
                        callback: function,
                        arguments: event_arguments(e.id, "submit"@).push(
                            EntryView {
                                key: "value"@,
                                value: match b.text_holder(h) {
                                    Some(t) => match b.node(t).text {
                                        Some(text) => text,
                                        None => Seq::empty(),
                                    },
                                    None => Seq::empty(),
                                },
                            },
                        ),
                    },
                )
            } else {
                None
            },
            _ => None,
        }
    } else {
        None
    }
}

fn arguments_of(id: &String, event: &str) -> (r: Vec<Entry>)
    ensures
        r.deep_view() == event_arguments(id@, event@),
{
    let mut arguments: Vec<Entry> = Vec::new();
    arguments.push(Entry { key: "id".to_owned(), value: id.clone() });
    arguments.push(Entry { key: "event".to_owned(), value: event.to_owned() });
    assert(arguments.deep_view() =~= event_arguments(id@, event@));
    arguments
}

/// The function that the first binding of the event `event` names.
pub fn find_binding<'a>(bindings: &'a Vec<EventCallback>, event: &str) -> (r: Option<&'a String>)
    ensures
        r.deep_view() == binding_of(bindings.deep_view(), event@, 0),
{
    let ghost all = bindings.deep_view();
    let mut i: usize = 0;
    while i < bindings.len()
        invariant
            0 <= i <= bindings.len(),
            all == bindings.deep_view(),
            binding_of(all, event@, 0) == binding_of(all, event@, i as int),
        decreases bindings.len() - i,
    {
        assert(all[i as int] == bindings@[i as int].deep_view());
        if str_eq(bindings[i].event_type.as_str(), event) {
            return Some(&bindings[i].callback);
        }
        i = i + 1;
    }
    None
}

/// Translates a pointer press on the node `pressed` into a callback
/// request; see [`click_request`].
pub fn button_click_system(builder: &UIBuilder, pressed: usize) -> (r: Option<RubyCallbackEvent>)
    ensures
        r.deep_view() == click_request(builder@, pressed),
{
    let node = match builder.node(pressed) {
        Some(n) => n,
        None => {
            return None;
        },
    };
    match node.kind {
        NodeKind::Button => {},
        _ => {
            return None;
        },
    }
    match (&node.element, find_binding(&node.callbacks, "click")) {
        (Some(e), Some(function)) => Some(
            RubyCallbackEvent {
                callback: function.clone(),
                arguments: arguments_of(&e.id, "click"),
            },
        ),
        _ => None,
    }
}

/// Translates the Enter key, pressed while the node `focused` has the
/// focus, into a callback request; see [`submit_request`].
pub fn input_interaction_system(builder: &UIBuilder, focused: usize) -> (r: Option<
    RubyCallbackEvent,
>)
    ensures
        r.deep_view() == submit_request(builder@, focused),
{
    let node = match builder.node(focused) {
        Some(n) => n,
        None => {
            return None;
        },
    };
    match (&node.element, find_binding(&node.callbacks, "submit")) {
        (Some(e), Some(function)) => {
            if string_is(&e.component_type, "input") {
                let current = match builder.text_holder(focused) {
                    Some(t) => match builder.node(t) {
                        Some(holder) => match &holder.text {
                            Some(text) => text.clone(),
                            None => String::new(),
                        },
                        None => String::new(),
                    },
                    None => String::new(),
                };
                let mut arguments = arguments_of(&e.id, "submit");
                let ghost before = arguments.deep_view();
                arguments.push(Entry { key: "value".to_owned(), value: current });
                assert(arguments.deep_view() =~= before.push(
                    EntryView { key: "value"@, value: current@ },
                ));
                Some(RubyCallbackEvent { callback: function.clone(), arguments })
            } else {
                None
            }
        },
        _ => None,
    }
}

/// The node that holds the keyboard focus after a pointer press on the
/// node `pressed`: that node where it is an input field, and no node where
/// it is anything else or does not exist.
pub open spec fn focus_after(b: BuilderView, pressed: usize) -> Option<usize> {
    if b.live(pressed) && b.node(pressed).kind == NodeKind::Input {
        Some(pressed)
    } else {
        None
    }
}

/// Says which node holds the keyboard focus after a pointer press on the
/// node `pressed`; see [`focus_after`]. The Enter key is for the node that
/// holds the focus, see [`input_interaction_system`].
pub fn input_focus_system(builder: &UIBuilder, pressed: usize) -> (r: Option<usize>)
    ensures
        r == focus_after(builder@, pressed),
{
    match builder.node(pressed) {
        Some(node) => match node.kind {
            NodeKind::Input => Some(pressed),
            _ => None,
        },
        None => None,
    }
}

/// The state and the errors after the updates `from..` of `events` were
/// applied in order. An update that fails changes nothing and adds its
/// error.
pub open spec fn applied_all(b: BuilderView, events: Seq<UIUpdateEventView>, from: int) -> (
    BuilderView,
    Seq<UpdateErrorView>,
)
    decreases events.len() - from,
{
    if 0 <= from < events.len() {
        let (b1, r) = applied(b, events[from].id, events[from].update);
        let (b2, errors) = applied_all(b1, events, from + 1);
        match r {
            Ok(()) => (b2, errors),
            Err(e) => (b2, seq![e] + errors),
        }
    } else {
        (b, Seq::empty())
    }
}

/// The errors of a sequence of updates, viewed.
pub open spec fn errors_view(errors: Seq<UpdateError>) -> Seq<UpdateErrorView> {
    errors.map_values(|e: UpdateError| e@)
}

/// Applies the updates in order, each once, and gives the errors of those
/// that could not be applied.
pub fn handle_ui_updates(dsl_state: &mut UIDSLState, events: &Vec<UIUpdateEvent>) -> (errors: Vec<
    UpdateError,
>)
    ensures
        (final(dsl_state).builder@, errors_view(errors@)) == applied_all(
            old(dsl_state).builder@,
            events.deep_view(),
            0,
        ),
        final(dsl_state).parser == old(dsl_state).parser,
        final(dsl_state).last_eval == old(dsl_state).last_eval,
        old(dsl_state).builder@.wf() ==> final(dsl_state).builder@.wf(),
{
    let ghost all = events.deep_view();
    let ghost target = applied_all(dsl_state.builder@, all, 0);
    let mut errors: Vec<UpdateError> = Vec::new();
    let mut i: usize = 0;
    assert(errors_view(errors@) =~= Seq::empty());
    while i < events.len()
        invariant
            0 <= i <= events.len(),
            all == events.deep_view(),
            dsl_state.parser == old(dsl_state).parser,
            dsl_state.last_eval == old(dsl_state).last_eval,
            old(dsl_state).builder@.wf() ==> dsl_state.builder@.wf(),
            target.0 == applied_all(dsl_state.builder@, all, i as int).0,
            target.1 == errors_view(errors@) + applied_all(dsl_state.builder@, all, i as int).1,
        decreases events.len() - i,
    {
        assert(all[i as int] == events@[i as int]@);
        let ghost before = errors_view(errors@);
        let ghost rest = applied_all(dsl_state.builder@, all, i as int).1;
        match dsl_state.builder.update_component(events[i].id.as_str(), &events[i].update) {
            Ok(()) => {},
            Err(e) => {
                errors.push(e);
                proof {
                    let after = applied_all(dsl_state.builder@, all, i as int + 1).1;
                    assert(errors_view(errors@) =~= before.push(e@));
                    assert(rest == seq![e@] + after);
                    assert(before + rest =~= errors_view(errors@) + after);
                }
            },
        }
        i = i + 1;
    }
    proof {
        assert(errors_view(errors@) + Seq::<UpdateErrorView>::empty() =~= errors_view(errors@));
    }
    errors
}

/// What became of a callback: the updates its answer asks for, the
/// warnings about the parts of the answer that were not understood, and the
/// error if the invocation failed.
#[derive(Debug, PartialEq, Eq)]
pub struct CallbackOutcome {
    pub updates: Vec<UIUpdateEvent>,
    pub warnings: Vec<String>,
    pub error: Option<CallbackError>,
}

/// Mathematical view of a [`CallbackOutcome`].
pub struct CallbackOutcomeView {
    pub updates: Seq<UIUpdateEventView>,
    pub warnings: Seq<Seq<char>>,
    pub error: Option<CallbackErrorView>,
}

impl View for CallbackOutcome {
    type V = CallbackOutcomeView;

    open spec fn view(&self) -> CallbackOutcomeView {
        CallbackOutcomeView {
            updates: self.updates.deep_view(),
            warnings: self.warnings.deep_view(),
            error: match self.error {
                Some(e) => Some(e@),
                None => None,
            },
        }
    }
}

/// The three members that make an entry of `updates` count: a string `id`,
/// a string `action`, and a `value` of any type.
pub open spec fn update_triple(item: JsonView) -> Option<(Seq<char>, Seq<char>, JsonView)> {
    match (item.field("id"@).str_value(), item.field("action"@).str_value(), item.get("value"@)) {
        (Some(id), Some(action), Some(value)) => Some((id, action, value)),
        _ => None,
    }
}

/// The update that one entry of `updates` asks for: `setText` with a
/// string value sets the text of the component `id`.
pub open spec fn update_of(item: JsonView) -> Option<UIUpdateEventView> {
    match update_triple(item) {
        Some((id, action, value)) => if action == "setText"@ {
            match value.str_value() {
                Some(text) => Some(UIUpdateEventView { id, update: UpdateView::SetText(text) }),
                None => None,
            }
        } else {
            None
        },
        None => None,
    }
}

/// The warning that one entry of `updates` gives rise to: an entry with an
/// action other than `setText` is not understood.
pub open spec fn warning_of(item: JsonView) -> Option<Seq<char>> {
    match update_triple(item) {
        Some((id, action, value)) => if action == "setText"@ {
            None
        } else {
            Some("Action de mise à jour inconnue: "@ + action)
        },
        None => None,
    }
}

/// The updates that the entries ask for, in order.
pub open spec fn updates_of(items: Seq<JsonView>) -> Seq<UIUpdateEventView>
    decreases items.len(),
{
    if items.len() == 0 {
        Seq::empty()
    } else {
        match update_of(items.last()) {
            Some(u) => updates_of(items.drop_last()).push(u),
            None => updates_of(items.drop_last()),
        }
    }
}

/// The warnings that the entries give rise to, in order.
pub open spec fn warnings_of(items: Seq<JsonView>) -> Seq<Seq<char>>
    decreases items.len(),
{
    if items.len() == 0 {
        Seq::empty()
    } else {
        match warning_of(items.last()) {
            Some(w) => warnings_of(items.drop_last()).push(w),
            None => warnings_of(items.drop_last()),
        }
    }
}

/// The entries of the `updates` array of an answer, none where the answer
/// is not JSON or has no such array.
pub open spec fn update_entries(parsed: Option<JsonView>) -> Seq<JsonView> {
    match parsed {
        Some(answer) => match answer.get("updates"@) {
            Some(JsonView::Array(items)) => items,
            _ => Seq::empty(),
        },
        None => Seq::empty(),
    }
}

/// What became of a callback, given the value that its answer parses to. A
/// failed invocation asks for no update and carries the error. An answer
/// asks for the updates of its `updates` array; any other answer asks for
/// nothing.
pub open spec fn callback_outcome(result: Result<Seq<char>, Seq<char>>, parsed: Option<JsonView>) -> CallbackOutcomeView {
    match result {
        Ok(_) => CallbackOutcomeView {
            updates: updates_of(update_entries(parsed)),
            warnings: warnings_of(update_entries(parsed)),
            error: None,
        },
        Err(detail) => CallbackOutcomeView {
            updates: Seq::empty(),
            warnings: Seq::empty(),
            error: Some(CallbackErrorView::ScriptFailure(detail)),
        },
    }
}

/// The result of an invocation, viewed.
pub open spec fn invocation_view(result: Result<String, String>) -> Result<Seq<char>, Seq<char>> {
    match result {
        Ok(answer) => Ok(answer@),
        Err(detail) => Err(detail@),
    }
}

/// The text of an answer, empty for a failed invocation.
pub open spec fn answer_text(result: Result<String, String>) -> Seq<char> {
    match result {
        Ok(answer) => answer@,
        Err(_) => Seq::empty(),
    }
}

/// Reads the updates and warnings out of the entries of an `updates`
/// array.
pub fn read_updates(items: &Vec<Json>) -> (r: (Vec<UIUpdateEvent>, Vec<String>))
    ensures
        r.0.deep_view() == updates_of(items_view(items@)),
        r.1.deep_view() == warnings_of(items_view(items@)),
{
    let ghost all = items_view(items@);
    let mut updates: Vec<UIUpdateEvent> = Vec::new();
    let mut warnings: Vec<String> = Vec::new();
    proof {
        lemma_items_view(items@);
        assert(all.take(0) =~= Seq::empty());
        assert(updates.deep_view() =~= Seq::empty());
        assert(warnings.deep_view() =~= Seq::empty());
    }
    let mut i: usize = 0;
    while i < items.len()
        invariant
            0 <= i <= items.len(),
            all == items_view(items@),
            all.len() == items.len(),
            forall|k: int| 0 <= k < items.len() ==> #[trigger] all[k] == items[k]@,
            updates.deep_view() == updates_of(all.take(i as int)),
            warnings.deep_view() == warnings_of(all.take(i as int)),
        decreases items.len() - i,
    {
        proof {
            assert(all.take(i as int + 1).drop_last() =~= all.take(i as int));
            assert(all.take(i as int + 1).last() == all[i as int]);
        }
        let item = &items[i];
        let id: Option<&String> = match item.get("id") {
            Some(v) => v.as_str(),
            None => None,
        };
        let action: Option<&String> = match item.get("action") {
            Some(v) => v.as_str(),
            None => None,
        };
        match (id, action, item.get("value")) {
            (Some(id), Some(action), Some(value)) => {
                if string_is(action, "setText") {
                    match value.as_str() {
                        Some(text) => {
                            let ghost before = updates.deep_view();
                            let event = UIUpdateEvent {
                                id: id.clone(),
                                update: UIComponentUpdate::SetText(text.clone()),
                            };
                            updates.push(event);
                            assert(updates.deep_view() =~= before.push(event@));
                        },
                        None => {},
                    }
                } else {
                    let ghost before = warnings.deep_view();
                    let warning = "Action de mise à jour inconnue: ".to_owned().concat(
                        action.as_str(),
                    );
                    warnings.push(warning);
                    assert(warnings.deep_view() =~= before.push(warning@));
                }
            },
            _ => {},
        }
        i = i + 1;
    }
    proof {
        assert(all.take(i as int) =~= all);
    }
    (updates, warnings)
}

/// Interprets the result of invoking a callback; see [`callback_outcome`].
/// The answer is parsed by `serde_json`.
pub fn handle_ruby_callbacks(result: &Result<String, String>) -> (r: CallbackOutcome)
    ensures
        r@ == callback_outcome(
            invocation_view(*result),
            json_text_value(answer_text(*result)),
        ),
{
    match result {
        Ok(answer) => {
            let parsed = parse_json(answer.as_str());
            let (updates, warnings) = match &parsed {
                Some(json) => match json.get("updates") {
                    Some(list) => match list.as_array() {
                        Some(items) => read_updates(items),
                        None => empty_outcome(),
                    },
                    None => empty_outcome(),
                },
                None => empty_outcome(),
            };
            CallbackOutcome { updates, warnings, error: None }
        },
        Err(detail) => {
            let (updates, warnings) = empty_outcome();
            CallbackOutcome {
                updates,
                warnings,
                error: Some(CallbackError::ScriptFailure(detail.clone())),
            }
        },
    }
}

fn empty_outcome() -> (r: (Vec<UIUpdateEvent>, Vec<String>))
    ensures
        r.0.deep_view() == Seq::<UIUpdateEventView>::empty(),
        r.1.deep_view() == Seq::<Seq<char>>::empty(),
{
    let updates: Vec<UIUpdateEvent> = Vec::new();
    let warnings: Vec<String> = Vec::new();
    assert(updates.deep_view() =~= Seq::empty());
    assert(warnings.deep_view() =~= Seq::empty());
    (updates, warnings)
}

} // verus!
