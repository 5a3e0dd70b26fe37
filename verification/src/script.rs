//! The script evaluator: a small tree-walking interpreter over an
//! expression/statement AST with lexical scopes and lambdas.
//!
//! Scopes live in an arena: each scope holds its bindings and the index
//! of its parent, which is always an earlier arena slot, so chains walk
//! outward and never cycle. Everything the evaluator asks of the rest
//! of the system — event emission, control messages, sleeps, printing —
//! is appended to an effect list in source order; the driver performs
//! the effects. The focused window class is a snapshot the driver took
//! when it started the evaluation.

use vstd::prelude::*;
use std::rc::Rc;
use crate::control::ControlMessage;
use crate::keys::{InputEvent, KeyAction};
use crate::table::{KeyFingerprint, RuntimeAction};

verus! {

broadcast use vstd::std_specs::vec::axiom_vec_index_decreases;

/// One mapping declared by a `KeyMapping` expression.
pub struct KeyMapping {
    pub from: KeyFingerprint,
    pub to: Rc<RuntimeAction>,
}

/// An expression of the scripting surface.
pub enum Expr {
    Eq(Box<Expr>, Box<Expr>),
    Init(String, Box<Expr>),
    Assign(String, Box<Expr>),
    KeyMapping(Vec<KeyMapping>),
    Name(String),
    Boolean(bool),
    Str(String),
    Lambda(Rc<Block>),
    FunctionCall(String, Vec<Expr>),
    KeyAction(KeyAction),
    EatKeyAction(KeyAction),
    SleepAction(u64),
}

/// A statement: an expression for effect, a nested block with its own
/// scope, or a conditional.
pub enum Stmt {
    Expr(Expr),
    Block(Block),
    If(Expr, Block),
}

/// A sequence of statements sharing one scope.
pub struct Block {
    pub statements: Vec<Stmt>,
}

impl Block {
    /// The empty block.
    pub fn new() -> (b: Block)
        ensures
            b.statements@.len() == 0,
    {
        Block { statements: Vec::new() }
    }
}

/// A runtime value of the scripting surface. A lambda carries its body
/// and the arena index of the scope it captured.
pub enum ValueType {
    Bool(bool),
    Str(String),
    Lambda(Rc<Block>, usize),
}

/// What evaluating an expression yields: a value, or nothing.
pub enum ExprRet {
    Void,
    Value(ValueType),
}

/// A script-level failure. `TypeMismatch` covers a `Void` where a
/// value is needed and a non-lambda where a lambda is needed;
/// `UnknownName` is an assignment to a variable no enclosing scope
/// declares.
#[derive(Clone, Copy, PartialEq, Eq, Structural, Debug)]
pub enum ScriptError {
    TypeMismatch,
    UnknownName,
}

/// One thing the evaluator asks the driver to do, in source order.
pub enum Effect {
    Emit(InputEvent),
    Control(ControlMessage),
    Sleep(u64),
    Print(ExprRet),
}

/// The evaluator's surroundings: the window cycle token the evaluation
/// runs under, the focused window class as the driver last observed
/// it, and the effect list the evaluation appends to.
pub struct Ambient {
    pub window_cycle_token: u64,
    pub focused_window_class: Option<String>,
    pub effects: Vec<Effect>,
}

/// One scope: its bindings, and its parent scope in the arena.
pub struct VarMap {
    pub scope_values: Vec<(String, ValueType)>,
    pub parent: Option<usize>,
}

impl VarMap {
    /// A fresh scope with no bindings.
    pub fn new(parent: Option<usize>) -> (r: VarMap)
        ensures
            r.scope_values@.len() == 0,
            r.parent == parent,
    {
        VarMap { scope_values: Vec::new(), parent }
    }
}

/// The mathematical view of one scope.
#[verifier::ext_equal]
pub struct SScope {
    pub vars: Seq<(String, ValueType)>,
    pub parent: Option<int>,
}

pub open spec fn scope_view(m: VarMap) -> SScope {
    SScope {
        vars: m.scope_values@,
        parent: match m.parent {
            Some(p) => Some(p as int),
            None => None,
        },
    }
}

/// The scope arena. Scopes are only ever appended; a scope's parent is
/// always an earlier slot, so parent chains terminate.
pub struct ScopeArena {
    pub maps: Vec<VarMap>,
}

impl View for ScopeArena {
    type V = Seq<SScope>;

    open spec fn view(&self) -> Seq<SScope> {
        Seq::new(self.maps@.len(), |i: int| scope_view(self.maps@[i]))
    }
}

/// Every scope's parent is an earlier slot.
pub open spec fn arena_wf(a: Seq<SScope>) -> bool {
    forall|j: int|
        0 <= j < a.len() ==> (match (#[trigger] a[j]).parent {
            Some(p) => 0 <= p < j,
            None => true,
        })
}

impl ScopeArena {
    /// An arena holding a single root scope.
    pub fn new() -> (r: ScopeArena)
        ensures
            arena_wf(r@),
            r@.len() == 1,
            r@[0].vars.len() == 0,
            r@[0].parent is None,
    {
        let mut maps: Vec<VarMap> = Vec::new();
        maps.push(VarMap::new(None));
        ScopeArena { maps }
    }

    /// Opens a new scope whose parent is `parent`, returning its index.
    pub fn new_scope(&mut self, parent: usize) -> (idx: usize)
        requires
            arena_wf(old(self)@),
            parent < old(self)@.len(),
        ensures
            arena_wf(final(self)@),
            idx == old(self)@.len(),
            final(self)@ =~~= old(self)@.push(
                SScope { vars: Seq::empty(), parent: Some(parent as int) },
            ),
    {
        let idx = self.maps.len();
        self.maps.push(VarMap::new(Some(parent)));
        proof {
            assert(final(self)@ =~~= old(self)@.push(
                SScope { vars: Seq::empty(), parent: Some(parent as int) },
            ));
        }
        idx
    }
}

/// The position of the first binding of `name` in a scope's list.
pub open spec fn first_idx(vars: Seq<(String, ValueType)>, name: Seq<char>) -> Option<int>
    decreases vars.len(),
{
    if vars.len() == 0 {
        None
    } else if vars[0].0@ == name {
        Some(0int)
    } else {
        match first_idx(vars.drop_first(), name) {
            Some(i) => Some(i + 1),
            None => None,
        }
    }
}

/// The value bound to `name` in one scope, if any.
pub open spec fn assoc_get(vars: Seq<(String, ValueType)>, name: Seq<char>) -> Option<ValueType> {
    match first_idx(vars, name) {
        Some(i) => Some(vars[i].1),
        None => None,
    }
}

/// A scope's bindings after binding `name` to `v`: the existing
/// binding is overwritten in place, a new name is appended.
pub open spec fn assoc_set(
    vars: Seq<(String, ValueType)>,
    name: String,
    v: ValueType,
) -> Seq<(String, ValueType)> {
    match first_idx(vars, name@) {
        Some(i) => vars.update(i, (name, v)),
        None => vars.push((name, v)),
    }
}

proof fn lemma_first_idx(vars: Seq<(String, ValueType)>, name: Seq<char>)
    ensures
        match first_idx(vars, name) {
            Some(i) => 0 <= i < vars.len() && vars[i].0@ == name && (forall|j: int|
                0 <= j < i ==> (#[trigger] vars[j]).0@ != name),
            None => forall|j: int| 0 <= j < vars.len() ==> (#[trigger] vars[j]).0@ != name,
        },
    decreases vars.len(),
{
    if vars.len() > 0 && vars[0].0@ != name {
        lemma_first_idx(vars.drop_first(), name);
        match first_idx(vars.drop_first(), name) {
            Some(i) => {
                assert(vars.drop_first()[i] == vars[i + 1]);
                assert forall|j: int| 0 <= j < i + 1 implies (#[trigger] vars[j]).0@ != name by {
                    if j > 0 {
                        assert(vars.drop_first()[j - 1] == vars[j]);
                    }
                }
            }
            None => {
                assert forall|j: int| 0 <= j < vars.len() implies (#[trigger] vars[j]).0@
                    != name by {
                    if j > 0 {
                        assert(vars.drop_first()[j - 1] == vars[j]);
                    }
                }
            }
        }
    }
}

/// The value `Name(x)` resolves to from scope `i`: the binding in the
/// first scope along the parent chain that declares `x`.
pub open spec fn lookup_chain(a: Seq<SScope>, i: int, name: Seq<char>) -> Option<ValueType>
    decreases i,
{
    if !(0 <= i < a.len()) {
        None
    } else {
        match assoc_get(a[i].vars, name) {
            Some(v) => Some(v),
            None => match a[i].parent {
                Some(p) => if 0 <= p < i {
                    lookup_chain(a, p, name)
                } else {
                    None
                },
                None => None,
            },
        }
    }
}

/// The arena after scope `scope` binds `name` to `v`.
pub open spec fn arena_set(a: Seq<SScope>, scope: int, name: String, v: ValueType) -> Seq<SScope> {
    a.update(scope, SScope { vars: assoc_set(a[scope].vars, name, v), parent: a[scope].parent })
}

/// The arena after assigning `name := v` starting from scope `i`: the
/// nearest enclosing scope that declares `name` is updated; `None`
/// when no scope in the chain declares it.
pub open spec fn assign_chain(
    a: Seq<SScope>,
    i: int,
    name: String,
    v: ValueType,
) -> Option<Seq<SScope>>
    decreases i,
{
    if !(0 <= i < a.len()) {
        None
    } else if first_idx(a[i].vars, name@) is Some {
        Some(arena_set(a, i, name, v))
    } else {
        match a[i].parent {
            Some(p) => if 0 <= p < i {
                assign_chain(a, p, name, v)
            } else {
                None
            },
            None => None,
        }
    }
}

/// Relies on `Rc::clone` from std: the returned handle shares the same
/// value, so it is equal to the argument.
#[verifier::external_body]
fn rc_clone<T>(rc: &Rc<T>) -> (r: Rc<T>)
    ensures
        r == *rc,
{
    Rc::clone(rc)
}

/// An owned copy of a script value, equal to the one given. Lambda
/// bodies are shared, so copying is cheap.
fn clone_value(v: &ValueType) -> (r: ValueType)
    ensures
        r == *v,
{
    match v {
        ValueType::Bool(b) => ValueType::Bool(*b),
        ValueType::Str(s) => ValueType::Str(s.clone()),
        ValueType::Lambda(b, sc) => ValueType::Lambda(rc_clone(b), *sc),
    }
}

fn find_var_index(vars: &Vec<(String, ValueType)>, name: &String) -> (r: Option<usize>)
    ensures
        match r {
            Some(k) => first_idx(vars@, name@) == Some(k as int),
            None => first_idx(vars@, name@) is None,
        },
{
    proof {
        lemma_first_idx(vars@, name@);
    }
    let n = vars.len();
    let mut i: usize = 0;
    while i < n
        invariant
            n == vars@.len(),
            0 <= i <= n,
            forall|j: int| 0 <= j < i ==> (#[trigger] vars@[j]).0@ != name@,
        decreases n - i,
    {
        if vars[i].0 == *name {
            proof {
                lemma_first_idx(vars@, name@);
                match first_idx(vars@, name@) {
                    Some(fi) => {
                        assert(!(fi < i) && !(i < fi));
                    }
                    None => {
                        assert(vars@[i as int].0@ == name@);
                    }
                }
            }
            return Some(i);
        }
        i = i + 1;
    }
    None
}

/// Binds `name` to `v` in scope `scope`, overwriting an existing
/// binding of that name in that scope and appending otherwise.
fn scope_set(arena: &mut ScopeArena, scope: usize, name: String, v: ValueType)
    requires
        scope < old(arena)@.len(),
    ensures
        final(arena)@ =~~= arena_set(old(arena)@, scope as int, name, v),
        final(arena)@.len() == old(arena)@.len(),
        arena_wf(old(arena)@) ==> arena_wf(final(arena)@),
{
    let ghost a0 = arena@;
    let idx = find_var_index(&arena.maps[scope].scope_values, &name);
    proof {
        lemma_first_idx(arena.maps@[scope as int].scope_values@, name@);
    }
    match idx {
        Some(k) => {
            arena.maps[scope].scope_values[k] = (name, v);
        }
        None => {
            arena.maps[scope].scope_values.push((name, v));
        }
    }
    proof {
        assert(arena@ =~~= arena_set(a0, scope as int, name, v));
        if arena_wf(a0) {
            assert forall|j: int|
                0 <= j < arena@.len() implies (match (#[trigger] arena@[j]).parent {
                Some(p) => 0 <= p < j,
                None => true,
            }) by {
                assert(arena@[j].parent == a0[j].parent);
            }
        }
    }
}

/// Resolves `Name(x)` from scope `scope`, walking the chain outward;
/// the binding from the innermost scope that declares `x` wins.
fn lookup_var(arena: &ScopeArena, scope: usize, name: &String) -> (r: Option<ValueType>)
    requires
        arena_wf(arena@),
        scope < arena@.len(),
    ensures
        r == lookup_chain(arena@, scope as int, name@),
    decreases scope,
{
    let idx = find_var_index(&arena.maps[scope].scope_values, name);
    proof {
        lemma_first_idx(arena.maps@[scope as int].scope_values@, name@);
    }
    match idx {
        Some(k) => {
            let got = clone_value(&arena.maps[scope].scope_values[k].1);
            Some(got)
        }
        None => {
            match arena.maps[scope].parent {
                Some(p) => lookup_var(arena, p, name),
                None => None,
            }
        }
    }
}

/// Assigns `name := v` starting from scope `scope`: overwrites the
/// binding in the nearest enclosing scope that declares `name`, and
/// fails with `UnknownName` when none does.
fn assign_var(arena: &mut ScopeArena, scope: usize, name: &String, v: ValueType) -> (r: Result<
    (),
    ScriptError,
>)
    requires
        arena_wf(old(arena)@),
        scope < old(arena)@.len(),
    ensures
        match assign_chain(old(arena)@, scope as int, *name, v) {
            Some(a1) => r == Ok::<(), ScriptError>(()) && final(arena)@ =~~= a1,
            None => r == Err::<(), ScriptError>(ScriptError::UnknownName) && final(arena)@
                == old(arena)@,
        },
        final(arena)@.len() == old(arena)@.len(),
        arena_wf(final(arena)@),
    decreases scope,
{
    let idx = find_var_index(&arena.maps[scope].scope_values, name);
    match idx {
        Some(_) => {
            scope_set(arena, scope, name.clone(), v);
            Ok(())
        }
        None => {
            match arena.maps[scope].parent {
                Some(p) => assign_var(arena, p, name, v),
                None => Err(ScriptError::UnknownName),
            }
        }
    }
}

/// Whether two evaluation results compare equal under `Eq`: both sides
/// must be values of the same variant, booleans by value, strings by
/// contents; lambdas and `Void` never compare equal.
pub open spec fn spec_vals_eq(x: ExprRet, y: ExprRet) -> bool {
    match (x, y) {
        (ExprRet::Value(ValueType::Bool(a)), ExprRet::Value(ValueType::Bool(b))) => a == b,
        (ExprRet::Value(ValueType::Str(a)), ExprRet::Value(ValueType::Str(b))) => a@ == b@,
        _ => false,
    }
}

fn vals_eq(x: &ExprRet, y: &ExprRet) -> (r: bool)
    ensures
        r == spec_vals_eq(*x, *y),
{
    match (x, y) {
        (ExprRet::Value(ValueType::Bool(a)), ExprRet::Value(ValueType::Bool(b))) => *a == *b,
        (ExprRet::Value(ValueType::Str(a)), ExprRet::Value(ValueType::Str(b))) => *a == *b,
        _ => false,
    }
}

/// What evaluating an expression leaves behind: the result, the arena,
/// and the effects it appended.
pub struct EvalOut {
    pub res: Result<ExprRet, ScriptError>,
    pub arena: Seq<SScope>,
    pub effects: Seq<Effect>,
}

/// What evaluating a statement or block leaves behind.
pub struct BlockOut {
    pub res: Result<(), ScriptError>,
    pub arena: Seq<SScope>,
    pub effects: Seq<Effect>,
}

/// The control messages a `KeyMapping` expression posts: one tagged
/// `AddMapping` per declared mapping, in order.
pub open spec fn mappings_effects(ms: Seq<KeyMapping>, token: u64) -> Seq<Effect>
    decreases ms.len(),
{
    if ms.len() == 0 {
        Seq::<Effect>::empty()
    } else {
        mappings_effects(ms.drop_last(), token) + seq![
            Effect::Control(
                ControlMessage::AddMapping(Some(token), ms.last().from, ms.last().to),
            ),
        ]
    }
}

/// The meaning of one expression: evaluated against an arena, a
/// current scope, the cycle token, and the focused-window snapshot.
pub open spec fn eval_expr_s(
    e: Expr,
    a: Seq<SScope>,
    cur: int,
    token: u64,
    win: Option<String>,
) -> EvalOut
    decreases e,
{
    match e {
        Expr::Eq(l, r) => {
            let lo = eval_expr_s(*l, a, cur, token, win);
            match lo.res {
                Err(err) => lo,
                Ok(lv) => {
                    let ro = eval_expr_s(*r, lo.arena, cur, token, win);
                    let effects = lo.effects + ro.effects;
                    match ro.res {
                        Err(err) => EvalOut { res: Err(err), arena: ro.arena, effects },
                        Ok(rv) => EvalOut {
                            res: Ok(ExprRet::Value(ValueType::Bool(spec_vals_eq(lv, rv)))),
                            arena: ro.arena,
                            effects,
                        },
                    }
                }
            }
        }
        Expr::Init(name, sub) => {
            let so = eval_expr_s(*sub, a, cur, token, win);
            match so.res {
                Err(err) => so,
                Ok(ExprRet::Void) => EvalOut {
                    res: Err(ScriptError::TypeMismatch),
                    arena: so.arena,
                    effects: so.effects,
                },
                Ok(ExprRet::Value(v)) => EvalOut {
                    res: Ok(ExprRet::Void),
                    arena: arena_set(so.arena, cur, name, v),
                    effects: so.effects,
                },
            }
        }
        Expr::Assign(name, sub) => {
            let so = eval_expr_s(*sub, a, cur, token, win);
            match so.res {
                Err(err) => so,
                Ok(ExprRet::Void) => EvalOut {
                    res: Err(ScriptError::TypeMismatch),
                    arena: so.arena,
                    effects: so.effects,
                },
                Ok(ExprRet::Value(v)) => match assign_chain(so.arena, cur, name, v) {
                    Some(a1) => EvalOut {
                        res: Ok(ExprRet::Void),
                        arena: a1,
                        effects: so.effects,
                    },
                    None => EvalOut {
                        res: Err(ScriptError::UnknownName),
                        arena: so.arena,
                        effects: so.effects,
                    },
                },
            }
        }
        Expr::KeyMapping(ms) => EvalOut {
            res: Ok(ExprRet::Void),
            arena: a,
            effects: mappings_effects(ms@, token),
        },
        Expr::Name(name) => EvalOut {
            res: Ok(
                match lookup_chain(a, cur, name@) {
                    Some(v) => ExprRet::Value(v),
                    None => ExprRet::Void,
                },
            ),
            arena: a,
            effects: Seq::empty(),
        },
        Expr::Boolean(b) => EvalOut {
            res: Ok(ExprRet::Value(ValueType::Bool(b))),
            arena: a,
            effects: Seq::empty(),
        },
        Expr::Str(s) => EvalOut {
            res: Ok(ExprRet::Value(ValueType::Str(s))),
            arena: a,
            effects: Seq::empty(),
        },
        Expr::Lambda(b) => EvalOut {
            res: Ok(ExprRet::Value(ValueType::Lambda(b, cur as usize))),
            arena: a,
            effects: Seq::empty(),
        },
        Expr::FunctionCall(name, args) => {
            if name@ == "active_window_class"@ {
                EvalOut {
                    res: Ok(
                        match win {
                            Some(c) => ExprRet::Value(ValueType::Str(c)),
                            None => ExprRet::Void,
                        },
                    ),
                    arena: a,
                    effects: Seq::empty(),
                }
            } else if name@ == "on_window_change"@ {
                if args@.len() != 1 {
                    EvalOut {
                        res: Err(ScriptError::TypeMismatch),
                        arena: a,
                        effects: Seq::empty(),
                    }
                } else {
                    let so = eval_expr_s(args@[0], a, cur, token, win);
                    match so.res {
                        Err(err) => so,
                        Ok(ExprRet::Value(ValueType::Lambda(b, sc))) => EvalOut {
                            res: Ok(ExprRet::Void),
                            arena: so.arena,
                            effects: so.effects + seq![
                                Effect::Control(
                                    ControlMessage::RegisterWindowChangeCallback(b, sc),
                                ),
                            ],
                        },
                        Ok(_) => EvalOut {
                            res: Err(ScriptError::TypeMismatch),
                            arena: so.arena,
                            effects: so.effects,
                        },
                    }
                }
            } else if name@ == "print"@ {
                if args@.len() == 0 {
                    EvalOut {
                        res: Err(ScriptError::TypeMismatch),
                        arena: a,
                        effects: Seq::empty(),
                    }
                } else {
                    let so = eval_expr_s(args@[0], a, cur, token, win);
                    match so.res {
                        Err(err) => so,
                        Ok(v) => EvalOut {
                            res: Ok(ExprRet::Void),
                            arena: so.arena,
                            effects: so.effects + seq![Effect::Print(v)],
                        },
                    }
                }
            } else {
                EvalOut { res: Ok(ExprRet::Void), arena: a, effects: Seq::empty() }
            }
        }
        Expr::KeyAction(ka) => EvalOut {
            res: Ok(ExprRet::Void),
            arena: a,
            effects: seq![
                Effect::Emit(InputEvent::KeyEv(ka)),
                Effect::Emit(InputEvent::SynReport),
            ],
        },
        Expr::EatKeyAction(ka) => EvalOut {
            res: Ok(ExprRet::Void),
            arena: a,
            effects: seq![Effect::Control(ControlMessage::EatEvent(ka))],
        },
        Expr::SleepAction(ms) => EvalOut {
            res: Ok(ExprRet::Void),
            arena: a,
            effects: seq![Effect::Sleep(ms)],
        },
    }
}

/// The meaning of one statement.
pub open spec fn eval_stmt_s(
    st: Stmt,
    a: Seq<SScope>,
    cur: int,
    token: u64,
    win: Option<String>,
) -> BlockOut
    decreases st, 0nat,
{
    match st {
        Stmt::Expr(e) => {
            let eo = eval_expr_s(e, a, cur, token, win);
            BlockOut {
                res: match eo.res {
                    Ok(_) => Ok(()),
                    Err(err) => Err(err),
                },
                arena: eo.arena,
                effects: eo.effects,
            }
        }
        Stmt::Block(nb) => eval_block_s(nb, a, cur, token, win),
        Stmt::If(c, body) => {
            let co = eval_expr_s(c, a, cur, token, win);
            match co.res {
                Err(err) => BlockOut { res: Err(err), arena: co.arena, effects: co.effects },
                Ok(v) => {
                    if v == ExprRet::Value(ValueType::Bool(true)) {
                        let bo = eval_block_s(body, co.arena, cur, token, win);
                        BlockOut {
                            res: bo.res,
                            arena: bo.arena,
                            effects: co.effects + bo.effects,
                        }
                    } else {
                        BlockOut { res: Ok(()), arena: co.arena, effects: co.effects }
                    }
                }
            }
        }
    }
}

/// The meaning of the statements of `b` from index `i` on.
pub open spec fn eval_stmts_s(
    b: Block,
    i: int,
    a: Seq<SScope>,
    cur: int,
    token: u64,
    win: Option<String>,
) -> BlockOut
    decreases b, b.statements@.len() - i + 1,
{
    if i < 0 || i >= b.statements@.len() {
        BlockOut { res: Ok(()), arena: a, effects: Seq::empty() }
    } else {
        let so = eval_stmt_s(b.statements@[i], a, cur, token, win);
        match so.res {
            Err(err) => so,
            Ok(_) => {
                let rest = eval_stmts_s(b, i + 1, so.arena, cur, token, win);
                BlockOut {
                    res: rest.res,
                    arena: rest.arena,
                    effects: so.effects + rest.effects,
                }
            }
        }
    }
}

/// The meaning of a block: a fresh child scope of `cur` is opened and
/// the statements run in it, in source order.
pub open spec fn eval_block_s(
    b: Block,
    a: Seq<SScope>,
    cur: int,
    token: u64,
    win: Option<String>,
) -> BlockOut
    decreases b, b.statements@.len() + 2,
{
    let child = a.len() as int;
    let a1 = a.push(SScope { vars: Seq::empty(), parent: Some(cur) });
    eval_stmts_s(b, 0, a1, child, token, win)
}

proof fn lemma_app_assoc<A>(x: Seq<A>, y: Seq<A>, z: Seq<A>)
    ensures
        x + y + z == x + (y + z),
{
    assert(x + y + z =~= x + (y + z));
}

proof fn lemma_push_one<A>(x: Seq<A>, v: A)
    ensures
        x.push(v) == x + seq![v],
{
    assert(x.push(v) =~= x + seq![v]);
}

proof fn lemma_push_two<A>(x: Seq<A>, v: A, w: A)
    ensures
        x.push(v).push(w) == x + seq![v, w],
{
    assert(x.push(v).push(w) =~= x + seq![v, w]);
}

proof fn lemma_app_empty<A>(x: Seq<A>)
    ensures
        x + Seq::<A>::empty() == x,
{
    assert(x + Seq::<A>::empty() =~= x);
}

/// Evaluates one expression. The result, the arena and the appended
/// effects are exactly those of the expression's meaning; the token
/// and window snapshot are read, never changed.
pub fn eval_expr(expr: &Expr, arena: &mut ScopeArena, scope: usize, amb: &mut Ambient) -> (r:
    Result<ExprRet, ScriptError>)
    requires
        arena_wf(old(arena)@),
        scope < old(arena)@.len(),
    ensures
        ({
            let out = eval_expr_s(
                *expr,
                old(arena)@,
                scope as int,
                old(amb).window_cycle_token,
                old(amb).focused_window_class,
            );
            &&& r == out.res
            &&& final(arena)@ == out.arena
            &&& final(amb).effects@ == old(amb).effects@ + out.effects
        }),
        final(amb).window_cycle_token == old(amb).window_cycle_token,
        final(amb).focused_window_class == old(amb).focused_window_class,
        arena_wf(final(arena)@),
        final(arena)@.len() == old(arena)@.len(),
    decreases *expr,
{
    let ghost a0 = arena@;
    let ghost eff0 = amb.effects@;
    let ghost token = amb.window_cycle_token;
    let ghost win = amb.focused_window_class;
    match expr {
        Expr::Eq(l, r) => {
            let lr = eval_expr(&**l, arena, scope, amb);
            match lr {
                Err(err) => {
                    proof {
                        lemma_app_assoc(
                            eff0,
                            eval_expr_s(*expr, a0, scope as int, token, win).effects,
                            Seq::<Effect>::empty(),
                        );
                    }
                    Err(err)
                }
                Ok(lv) => {
                    let rr = eval_expr(&**r, arena, scope, amb);
                    proof {
                        let lo = eval_expr_s(**l, a0, scope as int, token, win);
                        let ro = eval_expr_s(**r, lo.arena, scope as int, token, win);
                        lemma_app_assoc(eff0, lo.effects, ro.effects);
                    }
                    match rr {
                        Err(err) => Err(err),
                        Ok(rv) => Ok(ExprRet::Value(ValueType::Bool(vals_eq(&lv, &rv)))),
                    }
                }
            }
        }
        Expr::Init(name, sub) => {
            let sr = eval_expr(&**sub, arena, scope, amb);
            match sr {
                Err(err) => Err(err),
                Ok(ExprRet::Void) => Err(ScriptError::TypeMismatch),
                Ok(ExprRet::Value(v)) => {
                    scope_set(arena, scope, name.clone(), v);
                    Ok(ExprRet::Void)
                }
            }
        }
        Expr::Assign(name, sub) => {
            let sr = eval_expr(&**sub, arena, scope, amb);
            match sr {
                Err(err) => Err(err),
                Ok(ExprRet::Void) => Err(ScriptError::TypeMismatch),
                Ok(ExprRet::Value(v)) => {
                    match assign_var(arena, scope, name, v) {
                        Ok(_) => Ok(ExprRet::Void),
                        Err(err) => Err(err),
                    }
                }
            }
        }
        Expr::KeyMapping(ms) => {
            let n = ms.len();
            let mut i: usize = 0;
            while i < n
                invariant
                    n == ms@.len(),
                    0 <= i <= n,
                    arena@ == a0,
                    amb.effects@ == eff0 + mappings_effects(ms@.take(i as int), token),
                    amb.window_cycle_token == token,
                    amb.focused_window_class == win,
                decreases n - i,
            {
                let to = rc_clone(&ms[i].to);
                amb.effects.push(
                    Effect::Control(ControlMessage::AddMapping(Some(amb.window_cycle_token), ms[i].from, to)),
                );
                proof {
                    assert(ms@.take(i + 1).drop_last() =~= ms@.take(i as int));
                    assert(ms@.take(i + 1).last() == ms@[i as int]);
                    assert(amb.effects@ =~= eff0 + mappings_effects(ms@.take(i + 1), token));
                }
                i = i + 1;
            }
            proof {
                assert(ms@.take(n as int) =~= ms@);
            }
            Ok(ExprRet::Void)
        }
        Expr::Name(name) => {
            let got = lookup_var(arena, scope, name);
            proof {
                lemma_app_empty(eff0);
            }
            match got {
                Some(v) => Ok(ExprRet::Value(v)),
                None => Ok(ExprRet::Void),
            }
        }
        Expr::Boolean(b) => {
            proof {
                lemma_app_empty(eff0);
            }
            Ok(ExprRet::Value(ValueType::Bool(*b)))
        }
        Expr::Str(s) => {
            proof {
                lemma_app_empty(eff0);
            }
            Ok(ExprRet::Value(ValueType::Str(s.clone())))
        }
        Expr::Lambda(b) => {
            proof {
                lemma_app_empty(eff0);
            }
            Ok(ExprRet::Value(ValueType::Lambda(rc_clone(b), scope)))
        }
        Expr::FunctionCall(name, args) => {
            let awc = "active_window_class".to_owned();
            let owc = "on_window_change".to_owned();
            let prt = "print".to_owned();
            if *name == awc {
                proof {
                    lemma_app_empty(eff0);
                }
                match &amb.focused_window_class {
                    Some(c) => Ok(ExprRet::Value(ValueType::Str(c.clone()))),
                    None => Ok(ExprRet::Void),
                }
            } else if *name == owc {
                if args.len() != 1 {
                    proof {
                        lemma_app_empty(eff0);
                    }
                    Err(ScriptError::TypeMismatch)
                } else {
                    let ar = eval_expr(&args[0], arena, scope, amb);
                    match ar {
                        Err(err) => Err(err),
                        Ok(ExprRet::Value(ValueType::Lambda(b, sc))) => {
                            let ghost so = eval_expr_s(args@[0], a0, scope as int, token, win);
                            amb.effects.push(
                                Effect::Control(
                                    ControlMessage::RegisterWindowChangeCallback(b, sc),
                                ),
                            );
                            proof {
                                lemma_push_one(
                                    eff0 + so.effects,
                                    Effect::Control(
                                        ControlMessage::RegisterWindowChangeCallback(b, sc),
                                    ),
                                );
                                lemma_app_assoc(
                                    eff0,
                                    so.effects,
                                    seq![
                                        Effect::Control(
                                            ControlMessage::RegisterWindowChangeCallback(b, sc),
                                        ),
                                    ],
                                );
                            }
                            Ok(ExprRet::Void)
                        }
                        Ok(_) => Err(ScriptError::TypeMismatch),
                    }
                }
            } else if *name == prt {
                if args.len() == 0 {
                    proof {
                        lemma_app_empty(eff0);
                    }
                    Err(ScriptError::TypeMismatch)
                } else {
                    let ar = eval_expr(&args[0], arena, scope, amb);
                    match ar {
                        Err(err) => Err(err),
                        Ok(v) => {
                            let ghost so = eval_expr_s(args@[0], a0, scope as int, token, win);
                            let ghost pv = v;
                            amb.effects.push(Effect::Print(v));
                            proof {
                                lemma_push_one(eff0 + so.effects, Effect::Print(pv));
                                lemma_app_assoc(eff0, so.effects, seq![Effect::Print(pv)]);
                            }
                            Ok(ExprRet::Void)
                        }
                    }
                }
            } else {
                proof {
                    lemma_app_empty(eff0);
                }
                Ok(ExprRet::Void)
            }
        }
        Expr::KeyAction(ka) => {
            amb.effects.push(Effect::Emit(InputEvent::KeyEv(*ka)));
            amb.effects.push(Effect::Emit(InputEvent::SynReport));
            proof {
                lemma_push_two(
                    eff0,
                    Effect::Emit(InputEvent::KeyEv(*ka)),
                    Effect::Emit(InputEvent::SynReport),
                );
            }
            Ok(ExprRet::Void)
        }
        Expr::EatKeyAction(ka) => {
            amb.effects.push(Effect::Control(ControlMessage::EatEvent(*ka)));
            proof {
                lemma_push_one(eff0, Effect::Control(ControlMessage::EatEvent(*ka)));
            }
            Ok(ExprRet::Void)
        }
        Expr::SleepAction(ms) => {
            amb.effects.push(Effect::Sleep(*ms));
            proof {
                lemma_push_one(eff0, Effect::Sleep(*ms));
            }
            Ok(ExprRet::Void)
        }
    }
}

/// Evaluates one statement in scope `scope`.
pub fn eval_stmt(st: &Stmt, arena: &mut ScopeArena, scope: usize, amb: &mut Ambient) -> (r: Result<
    (),
    ScriptError,
>)
    requires
        arena_wf(old(arena)@),
        scope < old(arena)@.len(),
    ensures
        ({
            let out = eval_stmt_s(
                *st,
                old(arena)@,
                scope as int,
                old(amb).window_cycle_token,
                old(amb).focused_window_class,
            );
            &&& r == out.res
            &&& final(arena)@ == out.arena
            &&& final(amb).effects@ == old(amb).effects@ + out.effects
        }),
        final(amb).window_cycle_token == old(amb).window_cycle_token,
        final(amb).focused_window_class == old(amb).focused_window_class,
        arena_wf(final(arena)@),
        old(arena)@.len() <= final(arena)@.len(),
    decreases *st, 0nat,
{
    let ghost a0 = arena@;
    let ghost eff0 = amb.effects@;
    let ghost token = amb.window_cycle_token;
    let ghost win = amb.focused_window_class;
    match st {
        Stmt::Expr(e) => {
            match eval_expr(e, arena, scope, amb) {
                Ok(_) => Ok(()),
                Err(err) => Err(err),
            }
        }
        Stmt::Block(nb) => eval_block(nb, arena, scope, amb),
        Stmt::If(c, body) => {
            let cr = eval_expr(c, arena, scope, amb);
            match cr {
                Err(err) => Err(err),
                Ok(v) => {
                    let take = match &v {
                        ExprRet::Value(ValueType::Bool(b)) => *b,
                        _ => false,
                    };
                    proof {
                        assert(take == (v == ExprRet::Value(ValueType::Bool(true))));
                    }
                    if take {
                        let br = eval_block(body, arena, scope, amb);
                        proof {
                            let co = eval_expr_s(*c, a0, scope as int, token, win);
                            let bo = eval_block_s(*body, co.arena, scope as int, token, win);
                            lemma_app_assoc(eff0, co.effects, bo.effects);
                        }
                        br
                    } else {
                        Ok(())
                    }
                }
            }
        }
    }
}

/// Evaluates the statements of `block` from `i` on, in scope `scope`.
fn eval_stmts(block: &Block, i: usize, arena: &mut ScopeArena, scope: usize, amb: &mut Ambient)
    -> (r: Result<(), ScriptError>)
    requires
        arena_wf(old(arena)@),
        scope < old(arena)@.len(),
        i <= block.statements@.len(),
    ensures
        ({
            let out = eval_stmts_s(
                *block,
                i as int,
                old(arena)@,
                scope as int,
                old(amb).window_cycle_token,
                old(amb).focused_window_class,
            );
            &&& r == out.res
            &&& final(arena)@ == out.arena
            &&& final(amb).effects@ == old(amb).effects@ + out.effects
        }),
        final(amb).window_cycle_token == old(amb).window_cycle_token,
        final(amb).focused_window_class == old(amb).focused_window_class,
        arena_wf(final(arena)@),
        old(arena)@.len() <= final(arena)@.len(),
    decreases *block, block.statements@.len() - i + 1,
{
    let ghost a0 = arena@;
    let ghost eff0 = amb.effects@;
    let ghost token = amb.window_cycle_token;
    let ghost win = amb.focused_window_class;
    if i == block.statements.len() {
        proof {
            lemma_app_empty(eff0);
        }
        Ok(())
    } else {
        let sr = eval_stmt(&block.statements[i], arena, scope, amb);
        match sr {
            Err(err) => Err(err),
            Ok(_) => {
                let rr = eval_stmts(block, i + 1, arena, scope, amb);
                proof {
                    let so = eval_stmt_s(block.statements@[i as int], a0, scope as int, token, win);
                    let rest = eval_stmts_s(
                        *block,
                        i + 1,
                        so.arena,
                        scope as int,
                        token,
                        win,
                    );
                    lemma_app_assoc(eff0, so.effects, rest.effects);
                }
                rr
            }
        }
    }
}

/// Evaluates a block: opens a fresh child scope of `scope` and runs
/// the statements in it, in source order.
pub fn eval_block(block: &Block, arena: &mut ScopeArena, scope: usize, amb: &mut Ambient) -> (r:
    Result<(), ScriptError>)
    requires
        arena_wf(old(arena)@),
        scope < old(arena)@.len(),
    ensures
        ({
            let out = eval_block_s(
                *block,
                old(arena)@,
                scope as int,
                old(amb).window_cycle_token,
                old(amb).focused_window_class,
            );
            &&& r == out.res
            &&& final(arena)@ == out.arena
            &&& final(amb).effects@ == old(amb).effects@ + out.effects
        }),
        final(amb).window_cycle_token == old(amb).window_cycle_token,
        final(amb).focused_window_class == old(amb).focused_window_class,
        arena_wf(final(arena)@),
        old(arena)@.len() <= final(arena)@.len(),
    decreases *block, block.statements@.len() + 2,
{
    let child = arena.new_scope(scope);
    eval_stmts(block, 0, arena, child, amb)
}

/// Scope lookup resolves to the innermost declaration: reading a name
/// from scope `i` takes the binding of `i` itself when it has one, and
/// otherwise the answer of the parent chain; only a chain that nowhere
/// declares the name yields nothing.
pub proof fn lemma_name_resolves_innermost(a: Seq<SScope>, i: int, name: Seq<char>)
    requires
        arena_wf(a),
        0 <= i < a.len(),
    ensures
        assoc_get(a[i].vars, name) is Some ==> lookup_chain(a, i, name) == assoc_get(
            a[i].vars,
            name,
        ),
        assoc_get(a[i].vars, name) is None ==> lookup_chain(a, i, name) == (match a[i].parent {
            Some(p) => lookup_chain(a, p, name),
            None => None::<ValueType>,
        }),
{
}

} // verus!
