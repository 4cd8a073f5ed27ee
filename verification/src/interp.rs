//! The symbolic interpreter: one pass over a function body that follows
//! constants through the operand stack and the locals, and offers what
//! stands on top of the stack at each call as a pointer and a length.

use crate::classify::{accepts, ClassifierPolicy, RuleTable};
use crate::instr::{Effect, Instr};
use crate::memory::{read_string, string_in_image, MemoryImage};
use crate::names::{lemma_with_name_contains, NameSet};
use crate::value::{
    local_value, slot_below_top, without_top, AbstractValue, FrameState, StackFrame,
};
use vstd::prelude::*;
use vstd::utf8::encode_utf8;

verus! {

/// The bounds within which two integers at a call count as a pointer and a length.
#[derive(Clone, Copy, Debug, PartialEq, Eq, Structural)]
pub struct ScanLimits {
    /// A pointer must be greater than this.
    pub pointer_floor: i32,
    /// The least length.
    pub min_len: i32,
    /// The greatest length.
    pub max_len: i32,
}

/// The limits that go with the standard rule table: pointers above the
/// first 4096 bytes, and lengths of 3 to 100.
pub open spec fn standard_limits() -> ScanLimits {
    ScanLimits { pointer_floor: 0x1000, min_len: 3, max_len: 100 }
}

impl ScanLimits {
    /// The standard limits.
    pub fn standard() -> (limits: ScanLimits)
        ensures
            limits == standard_limits(),
    {
        ScanLimits { pointer_floor: 0x1000, min_len: 3, max_len: 100 }
    }
}

/// The value of a global: `Unknown` where the table has no entry for it.
pub open spec fn global_value(globals: Seq<AbstractValue>, index: u32) -> AbstractValue {
    if index < globals.len() {
        globals[index as int]
    } else {
        AbstractValue::Unknown
    }
}

/// The 32 bits of a signed integer, read as an unsigned one.
pub open spec fn unsigned(x: i32) -> u32 {
    if x >= 0 {
        x as u32
    } else {
        (x + 0x1_0000_0000) as u32
    }
}

/// The state with `val` pushed.
pub open spec fn pushed(state: FrameState, val: AbstractValue) -> FrameState {
    FrameState { stack: state.stack.push(val), locals: state.locals }
}

/// The state with the top of the stack removed.
pub open spec fn popped(state: FrameState) -> FrameState {
    FrameState { stack: without_top(state.stack), locals: state.locals }
}

/// The top of the stack.
pub open spec fn top(state: FrameState) -> AbstractValue {
    slot_below_top(state.stack, 0)
}

/// What `select` yields of two values: the value where both are the same.
pub open spec fn selected(a: AbstractValue, b: AbstractValue) -> AbstractValue {
    if a == b {
        a
    } else {
        AbstractValue::Unknown
    }
}

/// The state after an effect.
pub open spec fn after_effect(
    state: FrameState,
    effect: Effect,
    globals: Seq<AbstractValue>,
) -> FrameState {
    match effect {
        Effect::PushKnown(value) => pushed(state, AbstractValue::Known(value)),
        Effect::PushUnknown => pushed(state, AbstractValue::Unknown),
        Effect::PushGlobal(index) => pushed(state, global_value(globals, index)),
        Effect::PushLocal(index) => pushed(state, local_value(state.locals, index)),
        Effect::SetLocal(index) => FrameState {
            stack: without_top(state.stack),
            locals: state.locals.insert(index, top(state)),
        },
        Effect::TeeLocal(index) => FrameState {
            stack: state.stack,
            locals: state.locals.insert(index, top(state)),
        },
        Effect::Add => pushed(popped(popped(state)), top(popped(state)).spec_plus(top(state))),
        Effect::Binary => pushed(popped(popped(state)), AbstractValue::Unknown),
        Effect::Unary => pushed(popped(state), AbstractValue::Unknown),
        Effect::Store => popped(popped(state)),
        Effect::Discard => popped(state),
        Effect::Call => FrameState { stack: seq![AbstractValue::Unknown], locals: state.locals },
        Effect::Select => pushed(
            popped(popped(popped(state))),
            selected(top(popped(popped(state))), top(popped(state))),
        ),
        Effect::Return | Effect::Nothing => state,
    }
}

/// The pointer and the length that the stack offers at a call: the top is
/// the length and the slot below it the pointer, both known and within the limits.
pub open spec fn call_candidate(stack: Seq<AbstractValue>, limits: ScanLimits) -> Option<(u32, u32)> {
    match (slot_below_top(stack, 1), slot_below_top(stack, 0)) {
        (AbstractValue::Known(ptr), AbstractValue::Known(len)) => if ptr > limits.pointer_floor
            && limits.min_len <= len <= limits.max_len {
            Some((unsigned(ptr), unsigned(len)))
        } else {
            None
        },
        _ => None,
    }
}

/// What the analysis of a function body rests on.
pub struct Setting {
    pub globals: Seq<AbstractValue>,
    pub memory: Map<u32, u8>,
    pub table: RuleTable,
    pub limits: ScanLimits,
}

/// The name that a call in `state` reveals: the string that the memory image
/// holds at the offered pointer and length, if the classifier accepts it.
pub open spec fn name_at_call(setting: Setting, state: FrameState) -> Option<Seq<u8>> {
    match call_candidate(state.stack, setting.limits) {
        Some((ptr, len)) => match string_in_image(setting.memory, ptr, len) {
            Some(text) => if accepts(setting.table, encode_utf8(text)) {
                Some(encode_utf8(text))
            } else {
                None
            },
            None => None,
        },
        None => None,
    }
}

/// The state before the instruction at index `n`, all instructions before it
/// taken in order.
pub open spec fn state_before(code: Seq<Instr>, globals: Seq<AbstractValue>, n: int) -> FrameState
    decreases n,
{
    if n <= 0 {
        FrameState::initial()
    } else {
        after_effect(state_before(code, globals, n - 1), code[n - 1].spec_effect(), globals)
    }
}

/// Whether a `return` stands before index `n`.
pub open spec fn returns_before(code: Seq<Instr>, n: int) -> bool {
    exists|j: int| 0 <= j < n && j < code.len() && (#[trigger] code[j]).spec_effect() == Effect::Return
}

/// The name that the instruction at index `at` reveals: it is a call, no
/// `return` stands before it, and the state before it offers a name.
pub open spec fn name_found_at(setting: Setting, code: Seq<Instr>, at: int) -> Option<Seq<u8>> {
    if 0 <= at < code.len() && code[at].spec_effect() == Effect::Call && !returns_before(code, at) {
        name_at_call(setting, state_before(code, setting.globals, at))
    } else {
        None
    }
}

/// Whether the function body reveals `name`.
pub open spec fn found_in_function(setting: Setting, code: Seq<Instr>, name: Seq<u8>) -> bool {
    exists|at: int| #[trigger] name_found_at(setting, code, at) == Some(name)
}

/// Reads a global; one without an entry is `Unknown`.
pub fn read_global(globals: &[AbstractValue], index: u32) -> (val: AbstractValue)
    ensures
        val == global_value(globals@, index),
{
    if (index as usize) < globals.len() {
        globals[index as usize]
    } else {
        AbstractValue::Unknown
    }
}

/// The 32 bits of `x`, read as an unsigned integer.
pub fn to_unsigned(x: i32) -> (r: u32)
    ensures
        r == unsigned(x),
{
    if x >= 0 {
        x as u32
    } else {
        ((x as i64) + 0x1_0000_0000) as u32
    }
}

/// Carries out one effect on the frame.
pub fn apply(frame: &mut StackFrame, effect: Effect, globals: &[AbstractValue])
    ensures
        final(frame)@ == after_effect(old(frame)@, effect, globals@),
{
    match effect {
        Effect::PushKnown(value) => {
            frame.push(AbstractValue::Known(value));
        },
        Effect::PushUnknown => {
            frame.push(AbstractValue::Unknown);
        },
        Effect::PushGlobal(index) => {
            frame.push(read_global(globals, index));
        },
        Effect::PushLocal(index) => {
            let val = frame.get_local(index);
            frame.push(val);
        },
        Effect::SetLocal(index) => {
            let val = frame.pop();
            frame.set_local(index, val);
        },
        Effect::TeeLocal(index) => {
            let val = frame.peek(0);
            frame.set_local(index, val);
        },
        Effect::Add => {
            let b = frame.pop();
            let a = frame.pop();
            frame.push(a.plus(b));
        },
        Effect::Binary => {
            frame.pop();
            frame.pop();
            frame.push(AbstractValue::Unknown);
        },
        Effect::Unary => {
            frame.pop();
            frame.push(AbstractValue::Unknown);
        },
        Effect::Store => {
            frame.pop();
            frame.pop();
        },
        Effect::Discard => {
            frame.pop();
        },
        Effect::Call => {
            frame.clear();
            frame.push(AbstractValue::Unknown);
        },
        Effect::Select => {
            frame.pop();
            let b = frame.pop();
            let a = frame.pop();
            frame.push(
                if a == b {
                    a
                } else {
                    AbstractValue::Unknown
                },
            );
        },
        Effect::Return | Effect::Nothing => {},
    }
}

/// The pointer and the length that the frame offers at a call.
pub fn inspect_call(frame: &StackFrame, limits: &ScanLimits) -> (candidate: Option<(u32, u32)>)
    ensures
        candidate == call_candidate(frame@.stack, *limits),
{
    match (frame.peek(1), frame.peek(0)) {
        (AbstractValue::Known(ptr), AbstractValue::Known(len)) => {
            if ptr > limits.pointer_floor && limits.min_len <= len && len <= limits.max_len {
                Some((to_unsigned(ptr), to_unsigned(len)))
            } else {
                None
            }
        },
        _ => None,
    }
}

/// What a scan is run with: the bounds on call arguments and the rule table.
#[derive(Debug, Clone)]
pub struct ScanConfig {
    /// The bounds on pointer and length.
    pub limits: ScanLimits,
    /// The rule table of the classifier.
    pub policy: ClassifierPolicy,
}

impl ScanConfig {
    /// The standard limits with the standard rule table.
    pub fn standard() -> (config: ScanConfig)
        ensures
            config@ == standard_rules(),
    {
        ScanConfig { limits: ScanLimits::standard(), policy: ClassifierPolicy::standard() }
    }
}

/// A configuration as a value: the limits and the rule table.
pub struct ScanRules {
    pub limits: ScanLimits,
    pub table: RuleTable,
}

impl View for ScanConfig {
    type V = ScanRules;

    open spec fn view(&self) -> ScanRules {
        ScanRules { limits: self.limits, table: self.policy@ }
    }
}

/// The standard configuration: the standard limits with the standard rule table.
pub open spec fn standard_rules() -> ScanRules {
    ScanRules { limits: standard_limits(), table: crate::classify::standard_table() }
}

/// The setting that a scan gives to the analysis of one function body.
pub open spec fn setting_of(
    globals: Seq<AbstractValue>,
    memory: Map<u32, u8>,
    rules: ScanRules,
) -> Setting {
    Setting { globals, memory, table: rules.table, limits: rules.limits }
}

/// The name that a call in the frame's state reveals.
pub fn name_offered(
    frame: &StackFrame,
    globals: &[AbstractValue],
    memory: &MemoryImage,
    config: &ScanConfig,
) -> (name: Option<String>)
    ensures
        match name {
            Some(s) => name_at_call(setting_of(globals@, memory@, config@), frame@) == Some(
                encode_utf8(s@),
            ),
            None => name_at_call(setting_of(globals@, memory@, config@), frame@) is None,
        },
{
    match inspect_call(frame, &config.limits) {
        Some((ptr, len)) => match read_string(memory, ptr, len) {
            Some(s) => {
                if config.policy.accepts_name(s.as_str()) {
                    Some(s)
                } else {
                    None
                }
            },
            None => None,
        },
        None => None,
    }
}

/// Whether one of the first `n` instructions reveals `name`.
pub open spec fn found_before(setting: Setting, code: Seq<Instr>, n: int, name: Seq<u8>) -> bool {
    exists|at: int| 0 <= at < n && #[trigger] name_found_at(setting, code, at) == Some(name)
}

/// What the first `n + 1` instructions reveal is what the first `n` reveal
/// and what the instruction at index `n` reveals.
proof fn lemma_found_step(setting: Setting, code: Seq<Instr>, n: int, name: Seq<u8>)
    requires
        0 <= n,
    ensures
        found_before(setting, code, n + 1, name) <==> found_before(setting, code, n, name)
            || name_found_at(setting, code, n) == Some(name),
{
    if found_before(setting, code, n + 1, name) {
        let at = choose|at: int|
            0 <= at < n + 1 && #[trigger] name_found_at(setting, code, at) == Some(name);
        if at < n {
            assert(found_before(setting, code, n, name));
        }
    }
    if found_before(setting, code, n, name) {
        let at = choose|at: int|
            0 <= at < n && #[trigger] name_found_at(setting, code, at) == Some(name);
        assert(found_before(setting, code, n + 1, name));
    }
    if name_found_at(setting, code, n) == Some(name) {
        assert(found_before(setting, code, n + 1, name));
    }
}

/// Where the body ends at index `n`, or a `return` stands there, the whole
/// body reveals what its first `n` instructions reveal.
proof fn lemma_found_all(setting: Setting, code: Seq<Instr>, n: int, name: Seq<u8>)
    requires
        0 <= n,
        n >= code.len() || code[n].spec_effect() == Effect::Return,
    ensures
        found_in_function(setting, code, name) <==> found_before(setting, code, n, name),
{
    if found_in_function(setting, code, name) {
        let at = choose|at: int| #[trigger] name_found_at(setting, code, at) == Some(name);
        if at > n {
            assert(returns_before(code, at)) by {
                assert(code[n].spec_effect() == Effect::Return);
            }
        }
        assert(found_before(setting, code, n, name));
    }
    if found_before(setting, code, n, name) {
        let at = choose|at: int|
            0 <= at < n && #[trigger] name_found_at(setting, code, at) == Some(name);
        assert(found_in_function(setting, code, name));
    }
}

/// Interprets one function body and adds to `env_vars` each name that one of
/// its calls reveals. The body is read up to its first `return`.
pub fn analyze_function(
    code: &[Instr],
    globals: &[AbstractValue],
    memory: &MemoryImage,
    config: &ScanConfig,
    env_vars: &mut NameSet,
)
    requires
        old(env_vars).wf(),
    ensures
        final(env_vars).wf(),
        forall|name: Seq<u8>|
            #![trigger final(env_vars)@.contains(name)]
            final(env_vars)@.contains(name) <==> old(env_vars)@.contains(name) || found_in_function(
                setting_of(globals@, memory@, config@),
                code@,
                name,
            ),
{
    let ghost setting = setting_of(globals@, memory@, config@);
    let ghost before = env_vars@;
    let mut frame = StackFrame::new();
    let mut i: usize = 0;
    while i < code.len()
        invariant
            i <= code.len(),
            env_vars.wf(),
            before == old(env_vars)@,
            setting == setting_of(globals@, memory@, config@),
            frame@ == state_before(code@, globals@, i as int),
            !returns_before(code@, i as int),
            forall|name: Seq<u8>|
                #![trigger env_vars@.contains(name)]
                env_vars@.contains(name) <==> before.contains(name) || found_before(
                    setting,
                    code@,
                    i as int,
                    name,
                ),
        decreases code.len() - i,
    {
        let effect = code[i].effect();
        let ghost held = env_vars@;
        let ghost revealed = name_found_at(setting, code@, i as int);
        match effect {
            Effect::Return => {
                assert forall|name: Seq<u8>|
                    #![trigger env_vars@.contains(name)]
                    env_vars@.contains(name) <==> before.contains(name) || found_in_function(
                        setting,
                        code@,
                        name,
                    ) by {
                    lemma_found_all(setting, code@, i as int, name);
                }
                return ;
            },
            Effect::Call => {
                match name_offered(&frame, globals, memory, config) {
                    Some(s) => {
                        let ghost found = encode_utf8(s@);
                        let added = env_vars.insert(s);
                        proof {
                            assert(revealed == Some(found));
                            assert forall|name: Seq<u8>|
                                #![trigger env_vars@.contains(name)]
                                env_vars@.contains(name) <==> held.contains(name) || name
                                    == found by {
                                lemma_with_name_contains(held, found, name);
                            }
                        }
                    },
                    None => {
                        assert(revealed is None);
                    },
                }
            },
            _ => {
                assert(revealed is None);
            },
        }
        apply(&mut frame, effect, globals);
        proof {
            assert(!returns_before(code@, i + 1)) by {
                if returns_before(code@, i + 1) {
                    let j = choose|j: int|
                        0 <= j < i + 1 && j < code@.len() && (#[trigger] code@[j]).spec_effect()
                            == Effect::Return;
                    if j < i {
                        assert(returns_before(code@, i as int));
                    }
                }
            }
            assert forall|name: Seq<u8>|
                #![trigger env_vars@.contains(name)]
                env_vars@.contains(name) <==> before.contains(name) || found_before(
                    setting,
                    code@,
                    i + 1,
                    name,
                ) by {
                lemma_found_step(setting, code@, i as int, name);
                assert(held.contains(name) <==> before.contains(name) || found_before(
                    setting,
                    code@,
                    i as int,
                    name,
                ));
            }
        }
        i = i + 1;
    }
    assert forall|name: Seq<u8>|
        #![trigger env_vars@.contains(name)]
        env_vars@.contains(name) <==> before.contains(name) || found_in_function(
            setting,
            code@,
            name,
        ) by {
        lemma_found_all(setting, code@, i as int, name);
    }
}

} // verus!
