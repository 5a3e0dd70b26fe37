use std::rc::Rc;
use keyremap::control::{begin_window_change, handle_control_message, ControlMessage, WindowArbiter};
use keyremap::engine::process_events;
use keyremap::keys::{InputEvent, Key, KeyAction, KeyValue};
use keyremap::modifiers::ModifierState;
use keyremap::script::{
    eval_block, eval_expr, Ambient, Block, Effect, Expr, ExprRet, KeyMapping, ScopeArena,
    ScriptError, Stmt, ValueType,
};
use keyremap::table::Mappings;
use keyremap::writer::map_internal;

fn ambient(token: u64, window: Option<&str>) -> Ambient {
    Ambient {
        window_cycle_token: token,
        focused_window_class: window.map(|s| s.to_string()),
        effects: Vec::new(),
    }
}

fn value_of(r: Result<ExprRet, ScriptError>) -> ValueType {
    match r {
        Ok(ExprRet::Value(v)) => v,
        _ => panic!("expected a value"),
    }
}

#[test]
fn innermost_scope_wins() {
    let mut arena = ScopeArena::new();
    let mut amb = ambient(0, None);
    let init_outer = Expr::Init("x".to_string(), Box::new(Expr::Str("outer".to_string())));
    eval_expr(&init_outer, &mut arena, 0, &mut amb).unwrap();
    let child = arena.new_scope(0);
    let init_inner = Expr::Init("x".to_string(), Box::new(Expr::Str("inner".to_string())));
    eval_expr(&init_inner, &mut arena, child, &mut amb).unwrap();
    // Reading from the child sees the innermost binding.
    let got = value_of(eval_expr(&Expr::Name("x".to_string()), &mut arena, child, &mut amb));
    assert!(matches!(got, ValueType::Str(s) if s == "inner"));
    // Reading from the root sees the outer binding.
    let got = value_of(eval_expr(&Expr::Name("x".to_string()), &mut arena, 0, &mut amb));
    assert!(matches!(got, ValueType::Str(s) if s == "outer"));
    // A name bound only in a parent is found from the child.
    let init_y = Expr::Init("y".to_string(), Box::new(Expr::Boolean(true)));
    eval_expr(&init_y, &mut arena, 0, &mut amb).unwrap();
    let got = value_of(eval_expr(&Expr::Name("y".to_string()), &mut arena, child, &mut amb));
    assert!(matches!(got, ValueType::Bool(true)));
    // An unbound name reads as Void.
    let got = eval_expr(&Expr::Name("z".to_string()), &mut arena, child, &mut amb).unwrap();
    assert!(matches!(got, ExprRet::Void));
}

#[test]
fn assign_updates_nearest_defining_scope() {
    let mut arena = ScopeArena::new();
    let mut amb = ambient(0, None);
    let init = Expr::Init("x".to_string(), Box::new(Expr::Str("old".to_string())));
    eval_expr(&init, &mut arena, 0, &mut amb).unwrap();
    let child = arena.new_scope(0);
    let assign = Expr::Assign("x".to_string(), Box::new(Expr::Str("new".to_string())));
    eval_expr(&assign, &mut arena, child, &mut amb).unwrap();
    let got = value_of(eval_expr(&Expr::Name("x".to_string()), &mut arena, 0, &mut amb));
    assert!(matches!(got, ValueType::Str(s) if s == "new"));
}

#[test]
fn assign_unknown_name_fails() {
    let mut arena = ScopeArena::new();
    let mut amb = ambient(0, None);
    let assign = Expr::Assign("nope".to_string(), Box::new(Expr::Boolean(true)));
    let r = eval_expr(&assign, &mut arena, 0, &mut amb);
    assert!(matches!(r, Err(ScriptError::UnknownName)));
}

#[test]
fn init_with_void_fails() {
    let mut arena = ScopeArena::new();
    let mut amb = ambient(0, None);
    let init = Expr::Init("x".to_string(), Box::new(Expr::Name("unbound".to_string())));
    let r = eval_expr(&init, &mut arena, 0, &mut amb);
    assert!(matches!(r, Err(ScriptError::TypeMismatch)));
}

#[test]
fn eq_semantics() {
    let mut arena = ScopeArena::new();
    let mut amb = ambient(0, None);
    let same = Expr::Eq(
        Box::new(Expr::Str("a".to_string())),
        Box::new(Expr::Str("a".to_string())),
    );
    assert!(matches!(value_of(eval_expr(&same, &mut arena, 0, &mut amb)), ValueType::Bool(true)));
    let mixed = Expr::Eq(
        Box::new(Expr::Str("true".to_string())),
        Box::new(Expr::Boolean(true)),
    );
    assert!(matches!(value_of(eval_expr(&mixed, &mut arena, 0, &mut amb)), ValueType::Bool(false)));
    let lambdas = Expr::Eq(
        Box::new(Expr::Lambda(Rc::new(Block::new()))),
        Box::new(Expr::Lambda(Rc::new(Block::new()))),
    );
    assert!(
        matches!(value_of(eval_expr(&lambdas, &mut arena, 0, &mut amb)), ValueType::Bool(false))
    );
}

#[test]
fn sleep_keeps_source_order() {
    // A callback that emits X, sleeps, emits Y: within the invocation
    // the local X precedes its Y in the effect list.
    let mut arena = ScopeArena::new();
    let mut amb = ambient(0, None);
    let block = Block {
        statements: vec![
            Stmt::Expr(Expr::KeyAction(KeyAction { key: Key::X, value: KeyValue::Down })),
            Stmt::Expr(Expr::SleepAction(10)),
            Stmt::Expr(Expr::KeyAction(KeyAction { key: Key::Y, value: KeyValue::Down })),
        ],
    };
    eval_block(&block, &mut arena, 0, &mut amb).unwrap();
    assert_eq!(amb.effects.len(), 5);
    assert!(matches!(
        amb.effects[0],
        Effect::Emit(InputEvent::KeyEv(KeyAction { key: Key::X, value: KeyValue::Down }))
    ));
    assert!(matches!(amb.effects[1], Effect::Emit(InputEvent::SynReport)));
    assert!(matches!(amb.effects[2], Effect::Sleep(10)));
    assert!(matches!(
        amb.effects[3],
        Effect::Emit(InputEvent::KeyEv(KeyAction { key: Key::Y, value: KeyValue::Down }))
    ));
    assert!(matches!(amb.effects[4], Effect::Emit(InputEvent::SynReport)));
}

#[test]
fn on_window_change_requires_lambda() {
    let mut arena = ScopeArena::new();
    let mut amb = ambient(0, None);
    let call = Expr::FunctionCall("on_window_change".to_string(), vec![Expr::Boolean(true)]);
    assert!(matches!(eval_expr(&call, &mut arena, 0, &mut amb), Err(ScriptError::TypeMismatch)));
}

#[test]
fn unknown_function_returns_void() {
    let mut arena = ScopeArena::new();
    let mut amb = ambient(0, None);
    let call = Expr::FunctionCall("frobnicate".to_string(), vec![Expr::Boolean(true)]);
    let r = eval_expr(&call, &mut arena, 0, &mut amb).unwrap();
    assert!(matches!(r, ExprRet::Void));
    assert_eq!(amb.effects.len(), 0);
}

#[test]
fn active_window_class_reads_snapshot() {
    let mut arena = ScopeArena::new();
    let mut amb = ambient(0, Some("term"));
    let call = Expr::FunctionCall("active_window_class".to_string(), Vec::new());
    let got = value_of(eval_expr(&call, &mut arena, 0, &mut amb));
    assert!(matches!(got, ValueType::Str(s) if s == "term"));
    let mut amb2 = ambient(0, None);
    let r = eval_expr(&call, &mut arena, 0, &mut amb2).unwrap();
    assert!(matches!(r, ExprRet::Void));
}

/// The window-change callback of the window-scoped remap scenario:
/// `on_window_change { if (active_window_class() == "term") { map("a","b") } }`.
fn term_remap_callback() -> Block {
    let rows = map_internal(b"a", b"b").unwrap();
    let mappings: Vec<KeyMapping> = rows
        .into_iter()
        .map(|(fp, action)| KeyMapping { from: fp, to: Rc::new(action) })
        .collect();
    let cond = Expr::Eq(
        Box::new(Expr::FunctionCall("active_window_class".to_string(), Vec::new())),
        Box::new(Expr::Str("term".to_string())),
    );
    let body = Block { statements: vec![Stmt::Expr(Expr::KeyMapping(mappings))] };
    Block { statements: vec![Stmt::Expr(Expr::FunctionCall(
        "on_window_change".to_string(),
        vec![Expr::Lambda(Rc::new(Block { statements: vec![Stmt::If(cond, body)] }))],
    ))] }
}

fn drain_effects(
    amb: &mut Ambient,
    state: &mut ModifierState,
    mappings: &mut Mappings,
    arbiter: &mut WindowArbiter,
) {
    for effect in amb.effects.drain(..) {
        if let Effect::Control(msg) = effect {
            handle_control_message(msg, state, mappings, arbiter);
        }
    }
}

fn run_callbacks(
    arena: &mut ScopeArena,
    arbiter: &WindowArbiter,
    window: Option<&str>,
) -> Ambient {
    let mut amb = ambient(arbiter.cycle_token, window);
    let callbacks: Vec<(Rc<Block>, usize)> = arbiter.callbacks.clone();
    for (block, scope) in callbacks {
        eval_block(&block, arena, scope, &mut amb).unwrap();
    }
    amb
}

#[test]
fn window_scoped_remap() {
    let mut state = ModifierState::new();
    let mut mappings = Mappings::new();
    let mut arbiter = WindowArbiter::new();
    let mut arena = ScopeArena::new();

    // Run the registration script.
    let script = term_remap_callback();
    let mut amb = ambient(arbiter.cycle_token, None);
    eval_block(&script, &mut arena, 0, &mut amb).unwrap();
    drain_effects(&mut amb, &mut state, &mut mappings, &mut arbiter);
    assert_eq!(arbiter.callbacks.len(), 1);

    // Focus moves to a window of class "term": typing A emits B.
    begin_window_change(&mut arbiter, &mut mappings);
    let mut amb = run_callbacks(&mut arena, &arbiter, Some("term"));
    drain_effects(&mut amb, &mut state, &mut mappings, &mut arbiter);
    let events = vec![
        InputEvent::KeyEv(KeyAction { key: Key::A, value: KeyValue::Down }),
        InputEvent::KeyEv(KeyAction { key: Key::A, value: KeyValue::Up }),
    ];
    let mut output: Vec<InputEvent> = Vec::new();
    process_events(&mut state, &mappings, &events, &mut output);
    assert_eq!(
        output,
        vec![
            InputEvent::KeyEv(KeyAction { key: Key::B, value: KeyValue::Down }),
            InputEvent::SynReport,
            InputEvent::KeyEv(KeyAction { key: Key::B, value: KeyValue::Up }),
            InputEvent::SynReport,
        ]
    );

    // Focus moves away: typing A emits A again.
    begin_window_change(&mut arbiter, &mut mappings);
    let mut amb = run_callbacks(&mut arena, &arbiter, Some("editor"));
    drain_effects(&mut amb, &mut state, &mut mappings, &mut arbiter);
    let mut output: Vec<InputEvent> = Vec::new();
    process_events(&mut state, &mappings, &events, &mut output);
    assert_eq!(
        output,
        vec![
            InputEvent::KeyEv(KeyAction { key: Key::A, value: KeyValue::Down }),
            InputEvent::SynReport,
            InputEvent::KeyEv(KeyAction { key: Key::A, value: KeyValue::Up }),
            InputEvent::SynReport,
        ]
    );
}

#[test]
fn stale_callback_mappings_expire() {
    // A mapping declared under an old cycle token is filtered out.
    let mut state = ModifierState::new();
    let mut mappings = Mappings::new();
    let mut arbiter = WindowArbiter::new();
    let rows = map_internal(b"a", b"b").unwrap();
    let mut amb = ambient(arbiter.cycle_token, None);
    let km: Vec<KeyMapping> = rows
        .into_iter()
        .map(|(fp, action)| KeyMapping { from: fp, to: Rc::new(action) })
        .collect();
    let mut arena = ScopeArena::new();
    eval_expr(&Expr::KeyMapping(km), &mut arena, 0, &mut amb).unwrap();
    // The cycle moves on before the effects are drained.
    begin_window_change(&mut arbiter, &mut mappings);
    drain_effects(&mut amb, &mut state, &mut mappings, &mut arbiter);
    let events = vec![InputEvent::KeyEv(KeyAction { key: Key::A, value: KeyValue::Down })];
    let mut output: Vec<InputEvent> = Vec::new();
    process_events(&mut state, &mappings, &events, &mut output);
    assert_eq!(
        output,
        vec![
            InputEvent::KeyEv(KeyAction { key: Key::A, value: KeyValue::Down }),
            InputEvent::SynReport,
        ]
    );
}

#[test]
fn print_and_if_blocks() {
    let mut arena = ScopeArena::new();
    let mut amb = ambient(0, None);
    let block = Block {
        statements: vec![
            Stmt::Expr(Expr::Init("x".to_string(), Box::new(Expr::Boolean(true)))),
            Stmt::If(
                Expr::Name("x".to_string()),
                Block {
                    statements: vec![Stmt::Expr(Expr::FunctionCall(
                        "print".to_string(),
                        vec![Expr::Str("hit".to_string())],
                    ))],
                },
            ),
            Stmt::If(
                Expr::Boolean(false),
                Block {
                    statements: vec![Stmt::Expr(Expr::FunctionCall(
                        "print".to_string(),
                        vec![Expr::Str("miss".to_string())],
                    ))],
                },
            ),
        ],
    };
    eval_block(&block, &mut arena, 0, &mut amb).unwrap();
    assert_eq!(amb.effects.len(), 1);
    assert!(matches!(
        &amb.effects[0],
        Effect::Print(ExprRet::Value(ValueType::Str(s))) if s == "hit"
    ));
}

#[test]
fn lambda_captures_creation_scope() {
    // A lambda reads the scope where it was created, not the caller's.
    let mut arena = ScopeArena::new();
    let mut amb = ambient(0, None);
    eval_expr(
        &Expr::Init("who".to_string(), Box::new(Expr::Str("creator".to_string()))),
        &mut arena,
        0,
        &mut amb,
    )
    .unwrap();
    let lam = value_of(eval_expr(
        &Expr::Lambda(Rc::new(Block {
            statements: vec![Stmt::Expr(Expr::FunctionCall(
                "print".to_string(),
                vec![Expr::Name("who".to_string())],
            ))],
        })),
        &mut arena,
        0,
        &mut amb,
    ));
    let (body, captured) = match lam {
        ValueType::Lambda(b, s) => (b, s),
        _ => panic!("expected a lambda"),
    };
    // A different scope shadows the name; invoking the lambda extends
    // the captured chain and still sees the creator's binding.
    let other = arena.new_scope(0);
    eval_expr(
        &Expr::Init("who".to_string(), Box::new(Expr::Str("caller".to_string()))),
        &mut arena,
        other,
        &mut amb,
    )
    .unwrap();
    let mut amb2 = ambient(0, None);
    eval_block(&body, &mut arena, captured, &mut amb2).unwrap();
    assert_eq!(amb2.effects.len(), 1);
    assert!(matches!(
        &amb2.effects[0],
        Effect::Print(ExprRet::Value(ValueType::Str(s))) if s == "creator"
    ));
}
