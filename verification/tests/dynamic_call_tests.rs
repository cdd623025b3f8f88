use gdmarshal::call::{ClassDecl, ExecOutcome, MethodDecl};
use gdmarshal::node_path::NodePath;
use gdmarshal::variant::{Variant, VariantType};

fn obj_payload() -> ClassDecl {
    let mut class = ClassDecl::new("ObjPayload");
    class.add_method(MethodDecl::new("take_1_int", vec![VariantType::Int]));
    class.add_method(MethodDecl::new("do_panic", Vec::new()));
    class.add_method(MethodDecl::new("get_instance_id", Vec::new()));
    class.add_method(MethodDecl::new("set_position", vec![VariantType::Int]));
    class
}

#[test]
fn dynamic_call_no_args() {
    let class = obj_payload();
    let args: Vec<Variant> = Vec::new();
    let result = class
        .try_call("get_instance_id", &args, ExecOutcome::Returned(Variant::from_int(42)))
        .expect("call must succeed");
    assert!(matches!(result, Variant::Int(42)));

    // The panic-free entry point returns the same value on the same inputs.
    let direct = class.call("get_instance_id", &args, ExecOutcome::Returned(Variant::from_int(42)));
    assert!(matches!(direct, Variant::Int(42)));
}

#[test]
fn dynamic_call_with_args() {
    let class = obj_payload();
    let args = vec![Variant::from_int(7)];
    let none = class
        .try_call("set_position", &args, ExecOutcome::NoReturn)
        .expect("call must succeed");
    assert!(matches!(none, Variant::Nil));
}

#[test]
fn dynamic_call_with_too_few_args() {
    let class = obj_payload();
    let args: Vec<Variant> = Vec::new();
    let call_error = class
        .try_call("take_1_int", &args, ExecOutcome::NoReturn)
        .expect_err("expected failed call");

    // User-facing method to which the error was propagated.
    assert_eq!(call_error.class_name(), Some("Object"));
    assert_eq!(call_error.method_name(), "call");
    assert_eq!(
        call_error.render().as_str(),
        "godot-rust function call failed: Object::call(&\"take_1_int\")\
        \n  Source: ObjPayload::take_1_int()\
        \n    Reason: function has 1 parameter, but received 0 arguments"
    );

    // Method where the error originated.
    let source = call_error.source().expect("must have source error");
    assert_eq!(
        source.render().as_str(),
        "godot-rust function call failed: ObjPayload::take_1_int()\
        \n    Reason: function has 1 parameter, but received 0 arguments"
    );
    assert_eq!(source.class_name(), Some("ObjPayload"));
    assert_eq!(source.method_name(), "take_1_int");
}

#[test]
fn dynamic_call_with_too_many_args() {
    let class = obj_payload();
    let args = vec![Variant::from_int(42), Variant::from_int(43)];
    let call_error = class
        .try_call("take_1_int", &args, ExecOutcome::NoReturn)
        .expect_err("expected failed call");

    assert_eq!(call_error.class_name(), Some("Object"));
    assert_eq!(call_error.method_name(), "call");
    assert_eq!(
        call_error.render().as_str(),
        "godot-rust function call failed: Object::call(&\"take_1_int\", [va] 42, 43)\
        \n  Source: ObjPayload::take_1_int()\
        \n    Reason: function has 1 parameter, but received 2 arguments"
    );
}

#[test]
fn dynamic_call_parameter_mismatch() {
    let class = obj_payload();
    let args = vec![Variant::from_str("string")];
    let call_error = class
        .try_call("take_1_int", &args, ExecOutcome::NoReturn)
        .expect_err("expected failed call");

    assert_eq!(call_error.class_name(), Some("Object"));
    assert_eq!(call_error.method_name(), "call");
    assert_eq!(
        call_error.render().as_str(),
        "godot-rust function call failed: Object::call(&\"take_1_int\", [va] \"string\")\
        \n  Source: ObjPayload::take_1_int()\
        \n    Reason: parameter #0 (i64) conversion\
        \n  Source: expected type INT, got STRING: \"string\""
    );
}

#[test]
fn dynamic_call_with_panic() {
    let class = obj_payload();
    let args: Vec<Variant> = Vec::new();
    let outcome = ExecOutcome::Panicked(
        "do_panic exploded".to_string(),
        Some(("examples/payload.rs".to_string(), 7)),
    );
    let call_error = class
        .try_call("do_panic", &args, outcome)
        .expect_err("panic should cause a call error");

    assert_eq!(call_error.class_name(), Some("Object"));
    assert_eq!(call_error.method_name(), "call");
    assert_eq!(
        call_error.render().as_str(),
        "godot-rust function call failed: Object::call(&\"do_panic\")\
        \n  Source: ObjPayload::do_panic()\
        \n    Reason: [panic]  do_panic exploded\
        \n  at examples/payload.rs:7"
    );
}

fn engine_node() -> ClassDecl {
    let mut class = ClassDecl::new("Node");
    class.add_method(MethodDecl::new_engine_native(
        "rpc_config",
        vec![VariantType::StringName, VariantType::Nil],
    ));
    class.add_method(MethodDecl::new_engine_native("set_name", vec![VariantType::GString]));
    class
}

#[test]
fn dynamic_call_with_too_few_args_engine() {
    let class = engine_node();
    let args = vec![Variant::from_str("some_method")];
    let outcome = ExecOutcome::EngineFault(
        "function has 2 parameters, but received 1 argument".to_string(),
    );
    let call_error = class
        .try_call("rpc_config", &args, outcome)
        .expect_err("expected failed call");

    assert_eq!(call_error.class_name(), Some("Object"));
    assert_eq!(call_error.method_name(), "call");
    assert_eq!(
        call_error.render().as_str(),
        "godot-rust function call failed: Object::call(&\"rpc_config\", [va] \"some_method\")\
        \n    Reason: function has 2 parameters, but received 1 argument"
    );
}

#[test]
fn dynamic_call_with_too_many_args_engine() {
    let class = engine_node();
    let args = vec![
        Variant::from_str("some_method"),
        Variant::Nil,
        Variant::from_int(123),
    ];
    let outcome = ExecOutcome::EngineFault(
        "function has 2 parameters, but received 3 arguments".to_string(),
    );
    let call_error = class
        .try_call("rpc_config", &args, outcome)
        .expect_err("expected failed call");

    assert_eq!(call_error.class_name(), Some("Object"));
    assert_eq!(call_error.method_name(), "call");
    assert_eq!(
        call_error.render().as_str(),
        "godot-rust function call failed: Object::call(&\"rpc_config\", [va] \"some_method\", null, 123)\
        \n    Reason: function has 2 parameters, but received 3 arguments"
    );
}

#[test]
fn dynamic_call_parameter_mismatch_engine() {
    let class = engine_node();
    let args = vec![Variant::from_int(123)];
    let outcome = ExecOutcome::EngineFault(
        "parameter #1 conversion -- expected type STRING, got INT".to_string(),
    );
    let call_error = class
        .try_call("set_name", &args, outcome)
        .expect_err("expected failed call");

    assert_eq!(call_error.class_name(), Some("Object"));
    assert_eq!(call_error.method_name(), "call");
    assert_eq!(
        call_error.render().as_str(),
        "godot-rust function call failed: Object::call(&\"set_name\", [va] 123)\
        \n    Reason: parameter #1 conversion -- expected type STRING, got INT"
    );
}

#[test]
fn engine_native_methods_are_not_revalidated_locally() {
    // The engine accepted a call the local table would have refused: the
    // dispatcher passes it through unmodified.
    let class = engine_node();
    let args: Vec<Variant> = Vec::new();
    let result = class
        .try_call("set_name", &args, ExecOutcome::NoReturn)
        .expect("engine-validated call passes through");
    assert!(matches!(result, Variant::Nil));
}

#[test]
fn dynamic_call_method_not_found() {
    let class = obj_payload();
    let args: Vec<Variant> = Vec::new();
    let call_error = class
        .try_call("no_such_method", &args, ExecOutcome::NoReturn)
        .expect_err("expected failed call");
    assert_eq!(call_error.class_name(), Some("Object"));
    assert_eq!(call_error.method_name(), "call");
    assert!(call_error.source().is_none());
    assert_eq!(
        call_error.render().as_str(),
        "godot-rust function call failed: Object::call(&\"no_such_method\")\
        \n    Reason: method not found"
    );
}

#[test]
fn variant_debug_forms_in_rendered_arguments() {
    let class = obj_payload();
    let path_arg = Variant::from_node_path(NodePath::from("a/b"));
    let args = vec![
        Variant::Nil,
        Variant::from_bool(true),
        Variant::from_int(-5),
        path_arg,
    ];
    let call_error = class
        .try_call("take_1_int", &args, ExecOutcome::NoReturn)
        .expect_err("expected failed call");
    assert_eq!(
        call_error.render().as_str(),
        "godot-rust function call failed: Object::call(&\"take_1_int\", [va] null, true, -5, ^\"a/b\")\
        \n  Source: ObjPayload::take_1_int()\
        \n    Reason: function has 1 parameter, but received 4 arguments"
    );
}

#[test]
fn conversions_succeed_on_matching_kind() {
    let v = Variant::from_int(9);
    assert_eq!(v.try_to_int().expect("int unboxes"), 9);
    assert_eq!(v.get_type(), VariantType::Int);

    let b = Variant::from_bool(false);
    assert!(!b.try_to_bool().expect("bool unboxes"));

    let s = Variant::from_str("hello");
    assert_eq!(s.try_to_gstring().expect("string unboxes").as_str(), "hello");

    let p = Variant::from_node_path(NodePath::from("a:b"));
    let path = p.try_to_node_path().expect("path unboxes");
    assert_eq!(path.get_subname(0).unwrap().as_str(), "b");
}

#[test]
fn optional_conversion_opts_into_absence() {
    assert_eq!(Variant::Nil.try_to_optional_int().expect("nil opts in"), None);
    assert_eq!(Variant::from_int(3).try_to_optional_int().expect("int unboxes"), Some(3));
    let err = Variant::from_bool(true)
        .try_to_optional_int()
        .expect_err("bool is still a mismatch");
    assert_eq!(err.message().as_str(), "expected type INT, got BOOL: true");
}

#[test]
fn conversions_from_nil_fail() {
    let v = Variant::Nil;
    let err = v.try_to_int().expect_err("nil never unboxes to int");
    assert_eq!(err.expected(), VariantType::Int);
    assert_eq!(err.actual_tag(), VariantType::Nil);
    assert_eq!(err.message().as_str(), "expected type INT, got NIL: null");
}

#[test]
fn conversion_error_carries_value_and_tags() {
    let v = Variant::from_str("string");
    let err = v.try_to_int().expect_err("kind mismatch");
    assert_eq!(err.expected(), VariantType::Int);
    assert_eq!(err.actual_tag(), VariantType::GString);
    assert_eq!(err.message().as_str(), "expected type INT, got STRING: \"string\"");
}

#[test]
fn tag_names_match_engine_spelling() {
    assert_eq!(VariantType::Nil.tag_name(), "NIL");
    assert_eq!(VariantType::Bool.tag_name(), "BOOL");
    assert_eq!(VariantType::Int.tag_name(), "INT");
    assert_eq!(VariantType::GString.tag_name(), "STRING");
    assert_eq!(VariantType::StringName.tag_name(), "STRING_NAME");
    assert_eq!(VariantType::NodePath.tag_name(), "NODE_PATH");
    assert_eq!(VariantType::Int.rust_name(), "i64");
}
