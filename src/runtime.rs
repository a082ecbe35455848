//! The decisions of the runtime call layer: what a finished foreign call
//! yields, and how a thread obtains its environment.

use vstd::prelude::*;

verus! {

/// Status codes of the native interface's environment calls.
pub const ENV_OK: i32 = 0;
pub const ENV_DETACHED: i32 = -2;
pub const ENV_VERSION: i32 = -3;

/// A reference to a managed object that is valid for the current call frame
/// only; `handle` is the runtime's non-null object handle.
#[derive(Clone, Copy, Debug, PartialEq, Eq, Structural)]
pub struct LocalRef {
    pub handle: usize,
}

/// What a foreign call returned, before it is wrapped. Floating-point results
/// travel as their bit patterns; an object is a handle, zero for null.
#[derive(Clone, Copy, Debug, PartialEq, Eq, Structural)]
pub enum RawValue {
    Void,
    Boolean(bool),
    Byte(i8),
    Char(u16),
    Short(i16),
    Int(i32),
    Long(i64),
    FloatBits(u32),
    DoubleBits(u64),
    Object(usize),
}

/// A call's result as the caller sees it: primitives as they came, objects
/// as an optional local reference.
#[derive(Clone, Copy, Debug, PartialEq, Eq, Structural)]
pub enum Value {
    Void,
    Boolean(bool),
    Byte(i8),
    Char(u16),
    Short(i16),
    Int(i32),
    Long(i64),
    FloatBits(u32),
    DoubleBits(u64),
    Object(Option<LocalRef>),
}

pub open spec fn wrap_spec(raw: RawValue) -> Value {
    match raw {
        RawValue::Void => Value::Void,
        RawValue::Boolean(b) => Value::Boolean(b),
        RawValue::Byte(b) => Value::Byte(b),
        RawValue::Char(c) => Value::Char(c),
        RawValue::Short(s) => Value::Short(s),
        RawValue::Int(i) => Value::Int(i),
        RawValue::Long(l) => Value::Long(l),
        RawValue::FloatBits(f) => Value::FloatBits(f),
        RawValue::DoubleBits(d) => Value::DoubleBits(d),
        RawValue::Object(h) => if h == 0 {
            Value::Object(None)
        } else {
            Value::Object(Some(LocalRef { handle: h }))
        },
    }
}

/// The outcome of a call: the thrown object when an exception is pending
/// (`pending` is its handle, zero for none), else the wrapped result.
pub open spec fn complete_spec(raw: RawValue, pending: usize) -> Result<Value, LocalRef> {
    if pending != 0 {
        Err(LocalRef { handle: pending })
    } else {
        Ok(wrap_spec(raw))
    }
}

/// Wraps a raw result: a null object becomes `None`, not an error.
pub fn wrap(raw: RawValue) -> (r: Value)
    ensures
        r == wrap_spec(raw),
{
    match raw {
        RawValue::Void => Value::Void,
        RawValue::Boolean(b) => Value::Boolean(b),
        RawValue::Byte(b) => Value::Byte(b),
        RawValue::Char(c) => Value::Char(c),
        RawValue::Short(s) => Value::Short(s),
        RawValue::Int(i) => Value::Int(i),
        RawValue::Long(l) => Value::Long(l),
        RawValue::FloatBits(f) => Value::FloatBits(f),
        RawValue::DoubleBits(d) => Value::DoubleBits(d),
        RawValue::Object(h) => if h == 0 {
            Value::Object(None)
        } else {
            Value::Object(Some(LocalRef { handle: h }))
        },
    }
}

/// Finishes a foreign call after its pending-exception check.
pub fn complete_call(raw: RawValue, pending: usize) -> (r: Result<Value, LocalRef>)
    ensures
        r == complete_spec(raw, pending),
{
    if pending != 0 {
        Err(LocalRef { handle: pending })
    } else {
        Ok(wrap(raw))
    }
}

/// With an exception pending, a call yields the thrown object, whatever
/// value the call nominally returned.
pub proof fn lemma_exception_hides_result(raw1: RawValue, raw2: RawValue, pending: usize)
    requires
        pending != 0,
    ensures
        complete_spec(raw1, pending) == complete_spec(raw2, pending),
        complete_spec(raw1, pending) == Err::<Value, LocalRef>(LocalRef { handle: pending }),
{
}

/// A null object result is the empty option, not a failure.
pub proof fn lemma_null_is_none(pending: usize)
    requires
        pending == 0,
    ensures
        complete_spec(RawValue::Object(0), pending) == Ok::<Value, LocalRef>(Value::Object(None)),
{
}

/// What a thread does next while obtaining its environment.
#[derive(Clone, Copy, Debug, PartialEq, Eq, Structural)]
pub enum EnvStep {
    /// The environment is bound to this thread: use it.
    Use,
    /// The thread is not attached: attach it.
    Attach,
    /// The native environment is unusable: stop the process.
    Fatal,
}

pub open spec fn get_env_spec(code: i32) -> EnvStep {
    if code == ENV_OK {
        EnvStep::Use
    } else if code == ENV_DETACHED {
        EnvStep::Attach
    } else {
        EnvStep::Fatal
    }
}

pub open spec fn attach_spec(code: i32) -> EnvStep {
    if code == ENV_OK {
        EnvStep::Use
    } else {
        EnvStep::Fatal
    }
}

/// The step after asking for the current thread's environment.
pub fn after_get_env(code: i32) -> (r: EnvStep)
    ensures
        r == get_env_spec(code),
{
    if code == ENV_OK {
        EnvStep::Use
    } else if code == ENV_DETACHED {
        EnvStep::Attach
    } else {
        EnvStep::Fatal
    }
}

/// The step after attaching the current thread.
pub fn after_attach(code: i32) -> (r: EnvStep)
    ensures
        r == attach_spec(code),
{
    if code == ENV_OK {
        EnvStep::Use
    } else {
        EnvStep::Fatal
    }
}

/// Obtaining an environment never attaches a thread that already has one,
/// and a failed attach never asks to attach again.
pub proof fn lemma_attach_idempotent(code: i32)
    ensures
        code == ENV_OK ==> get_env_spec(code) == EnvStep::Use,
        attach_spec(code) != EnvStep::Attach,
{
}

} // verus!
