use hale::builtins::{
    builtin_call, install_builtins, render_args, resolve_path, time_sleep_request, BuiltinEffect, BuiltinFn, BuiltinRef,
    Env, Value,
};

#[test]
fn install_binds_print_and_println() {
    let mut env = Env::new();
    install_builtins(&mut env);
    assert_eq!(
        env.get("print"),
        Some(&Value::Builtin(BuiltinRef { name: "print".to_string(), func: BuiltinFn::Print }))
    );
    assert_eq!(
        env.get("println"),
        Some(&Value::Builtin(BuiltinRef { name: "println".to_string(), func: BuiltinFn::Println }))
    );
    assert_eq!(env.get("sleep"), None);
}

#[test]
fn install_replaces_earlier_bindings_and_keeps_others() {
    let mut env = Env::new();
    env.define("print", Value::Int(1));
    env.define("x", Value::Bool(true));
    install_builtins(&mut env);
    assert_eq!(
        env.get("print"),
        Some(&Value::Builtin(BuiltinRef { name: "print".to_string(), func: BuiltinFn::Print }))
    );
    assert_eq!(env.get("x"), Some(&Value::Bool(true)));
}

#[test]
fn time_sleep_path_resolves() {
    assert_eq!(
        resolve_path(&["time", "sleep"]),
        Some(Value::Builtin(BuiltinRef { name: "time::sleep".to_string(), func: BuiltinFn::TimeSleep }))
    );
}

#[test]
fn other_paths_do_not_resolve() {
    assert_eq!(resolve_path(&["time"]), None);
    assert_eq!(resolve_path(&["time", "now"]), None);
    assert_eq!(resolve_path(&["time", "sleep", "x"]), None);
    assert_eq!(resolve_path(&[]), None);
}

#[test]
fn sleep_needs_an_argument() {
    assert_eq!(time_sleep_request(&[]), Err("time::sleep called with no arguments".to_string()));
}

#[test]
fn sleep_rejects_a_non_duration() {
    assert_eq!(
        time_sleep_request(&[Value::Int(5)]),
        Err("time::sleep expects a Duration, got Int".to_string())
    );
    assert_eq!(
        time_sleep_request(&[Value::Str("5s".to_string())]),
        Err("time::sleep expects a Duration, got String".to_string())
    );
}

#[test]
fn sleep_positive_duration_blocks() {
    assert_eq!(time_sleep_request(&[Value::Duration(1_500)]), Ok(Some(1_500)));
}

#[test]
fn sleep_non_positive_duration_returns_at_once() {
    assert_eq!(time_sleep_request(&[Value::Duration(0)]), Ok(None));
    assert_eq!(time_sleep_request(&[Value::Duration(-3)]), Ok(None));
}

#[test]
fn print_concatenates_displays() {
    let args = [
        Value::Str("n=".to_string()),
        Value::Int(-42),
        Value::Str(" ok=".to_string()),
        Value::Bool(true),
        Value::Unit,
        Value::Duration(10),
    ];
    assert_eq!(render_args(&args), "n=-42 ok=true()10ns");
    assert_eq!(render_args(&[]), "");
}

#[test]
fn builtin_values_display_their_name() {
    let v = Value::Builtin(BuiltinRef { name: "println".to_string(), func: BuiltinFn::Println });
    assert_eq!(v.display(), "<builtin println>");
    assert_eq!(v.type_label(), "Builtin");
}

#[test]
fn resolved_sleep_builtin_runs_the_sleep() {
    let func = match resolve_path(&["time", "sleep"]) {
        Some(Value::Builtin(b)) => b.func,
        other => panic!("unexpected {:?}", other),
    };
    assert_eq!(builtin_call(func, &[Value::Duration(1500)]), Ok(BuiltinEffect::Sleep(1500)));
    assert_eq!(builtin_call(func, &[Value::Duration(0)]), Ok(BuiltinEffect::Nothing));
    assert_eq!(builtin_call(func, &[Value::Duration(-3)]), Ok(BuiltinEffect::Nothing));
    assert_eq!(
        builtin_call(func, &[Value::Int(5)]),
        Err("time::sleep expects a Duration, got Int".to_string())
    );
    assert_eq!(builtin_call(func, &[]), Err("time::sleep called with no arguments".to_string()));
}

#[test]
fn installed_print_builtins_write_displays() {
    let mut env = Env::new();
    install_builtins(&mut env);
    let args = [Value::Str("n=".to_string()), Value::Int(-42), Value::Bool(true)];
    let print = match env.get("print") {
        Some(Value::Builtin(b)) => b.func,
        other => panic!("unexpected {:?}", other),
    };
    let println = match env.get("println") {
        Some(Value::Builtin(b)) => b.func,
        other => panic!("unexpected {:?}", other),
    };
    assert_eq!(builtin_call(print, &args), Ok(BuiltinEffect::Write("n=-42true".to_string())));
    assert_eq!(builtin_call(println, &args), Ok(BuiltinEffect::WriteLine("n=-42true".to_string())));
    assert_eq!(builtin_call(println, &[]), Ok(BuiltinEffect::WriteLine(String::new())));
}
