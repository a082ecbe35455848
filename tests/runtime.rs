use jni_bindgen::runtime::{
    after_attach, after_get_env, complete_call, wrap, EnvStep, LocalRef, RawValue, Value, ENV_DETACHED, ENV_OK,
    ENV_VERSION,
};

#[test]
fn null_object_is_none() {
    assert_eq!(complete_call(RawValue::Object(0), 0), Ok(Value::Object(None)));
}

#[test]
fn object_is_local_reference() {
    assert_eq!(complete_call(RawValue::Object(77), 0), Ok(Value::Object(Some(LocalRef { handle: 77 }))));
    assert_eq!(wrap(RawValue::Int(-4)), Value::Int(-4));
    assert_eq!(wrap(RawValue::DoubleBits(1.5f64.to_bits())), Value::DoubleBits(1.5f64.to_bits()));
}

#[test]
fn pending_exception_is_failure() {
    assert_eq!(complete_call(RawValue::Int(5), 1234), Err(LocalRef { handle: 1234 }));
    assert_eq!(complete_call(RawValue::Object(9), 1234), Err(LocalRef { handle: 1234 }));
}

#[test]
fn env_steps() {
    assert_eq!(after_get_env(ENV_OK), EnvStep::Use);
    assert_eq!(after_get_env(ENV_DETACHED), EnvStep::Attach);
    assert_eq!(after_get_env(ENV_VERSION), EnvStep::Fatal);
    assert_eq!(after_get_env(-1), EnvStep::Fatal);
    assert_eq!(after_attach(ENV_OK), EnvStep::Use);
    assert_eq!(after_attach(-1), EnvStep::Fatal);
}

#[test]
fn env_codes_match_native_interface() {
    assert_eq!(ENV_OK, jni_sys::JNI_OK);
    assert_eq!(ENV_DETACHED, jni_sys::JNI_EDETACHED);
    assert_eq!(ENV_VERSION, jni_sys::JNI_EVERSION);
}
