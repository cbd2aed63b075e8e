use empl::guile::subr::{
    describe_guile_fn, describe_raw_subr, ConfigArg, FnSignature, Inputs, ParamType, SubrError,
};
use empl::guile::{with_guile, Api, Entry, Scm};

fn signature(name: &str, params: Vec<ParamType>) -> FnSignature {
    FnSignature {
        name: name.to_string(),
        is_const: false,
        is_async: false,
        is_unsafe: false,
        is_variadic: false,
        is_generic: false,
        abi: None,
        params,
        output: Some(ParamType::Scm),
    }
}

#[test]
fn guile_fn_impl() {
    let foo = describe_guile_fn(
        &signature("foo", vec![ParamType::ScmArray(1), ParamType::OptionScmArray(1)]),
        &[],
    )
    .unwrap();
    assert_eq!(foo.inputs.required, 1);
    assert_eq!(foo.inputs.optional, 1);
    assert_eq!(foo.inputs.rest, false);
    assert_eq!(foo.guile_ident, "foo");
    assert_eq!(foo.struct_ident, "Foo");

    let bar = describe_guile_fn(
        &signature("bar", vec![ParamType::ScmArray(0), ParamType::OptionScmArray(1)]),
        &[],
    )
    .unwrap();
    assert_eq!(bar.inputs.required, 0);
    assert_eq!(bar.inputs.optional, 1);
    assert_eq!(bar.inputs.rest, false);
    assert_eq!(bar.guile_ident, "bar");

    let baz = describe_guile_fn(
        &signature(
            "baz",
            vec![ParamType::ScmArray(0), ParamType::OptionScmArray(0), ParamType::Scm],
        ),
        &[],
    )
    .unwrap();
    assert_eq!(baz.inputs.required, 0);
    assert_eq!(baz.inputs.optional, 0);
    assert_eq!(baz.inputs.rest, true);
    assert_eq!(baz.guile_ident, "baz");
}

#[test]
fn with_guile_nesting() {
    let mut api = Api::new();
    assert!(with_guile(&mut api, |api| with_guile(api, |_| true)));
}

#[test]
fn without_guile_nesting() {
    let mut api = Api::new();
    assert!(with_guile(&mut api, |api| api.without_guile(|api| with_guile(api, |_| true))));
}

#[test]
fn with_guile_restores_mode_and_initializes() {
    let mut api = Api::new();
    assert_eq!(api.entry(), Entry::Enter { lock: true });
    let inner = with_guile(&mut api, |api| (api.guile_mode(), api.entry()));
    assert_eq!(inner, (true, Entry::Direct));
    assert!(!api.guile_mode());
    assert!(api.initialized());
    assert_eq!(api.entry(), Entry::Enter { lock: false });
}

#[test]
fn without_guile_leaves_guile_mode_for_the_call() {
    let mut api = Api::new();
    let inside = with_guile(&mut api, |api| api.without_guile(|api| api.guile_mode()));
    assert!(!inside);
}

#[test]
fn snake_case_names_become_kebab_and_pascal() {
    let d = describe_guile_fn(
        &signature("set_executed", vec![ParamType::ScmArray(1), ParamType::OptionScmArray(0)]),
        &[],
    )
    .unwrap();
    assert_eq!(d.guile_ident, "set-executed");
    assert_eq!(d.struct_ident, "SetExecuted");
}

#[test]
fn attribute_arguments_override_names() {
    let args = [
        ConfigArg { name: "guile_ident".to_string(), value: Some("custom".to_string()) },
        ConfigArg { name: "struct_ident".to_string(), value: Some("Thing".to_string()) },
    ];
    let d = describe_guile_fn(
        &signature("foo", vec![ParamType::ScmArray(0), ParamType::OptionScmArray(0)]),
        &args,
    )
    .unwrap();
    assert_eq!(d.guile_ident, "custom");
    assert_eq!(d.struct_ident, "Thing");

    let bad = [ConfigArg { name: "other".to_string(), value: Some("x".to_string()) }];
    let e = describe_guile_fn(
        &signature("foo", vec![ParamType::ScmArray(0), ParamType::OptionScmArray(0)]),
        &bad,
    );
    assert_eq!(e.err(), Some(SubrError::UnknownArgument(0)));
    let not_literal = [ConfigArg { name: "guile_ident".to_string(), value: None }];
    let e = describe_guile_fn(
        &signature("foo", vec![ParamType::ScmArray(0), ParamType::OptionScmArray(0)]),
        &not_literal,
    );
    assert_eq!(e.err(), Some(SubrError::NotStringLiteral));
    let nul = [ConfigArg { name: "guile_ident".to_string(), value: Some("a\0b".to_string()) }];
    let e = describe_guile_fn(
        &signature("foo", vec![ParamType::ScmArray(0), ParamType::OptionScmArray(0)]),
        &nul,
    );
    assert_eq!(e.err(), Some(SubrError::NulByte));
}

#[test]
fn qualifiers_and_types_are_checked() {
    let mut s = signature("foo", vec![ParamType::ScmArray(0), ParamType::OptionScmArray(0)]);
    s.is_async = true;
    assert_eq!(describe_guile_fn(&s, &[]).err(), Some(SubrError::Async));
    let mut s = signature("foo", vec![ParamType::ScmArray(0), ParamType::OptionScmArray(0)]);
    s.output = None;
    assert_eq!(describe_guile_fn(&s, &[]).err(), Some(SubrError::ReturnType));
    let s = signature("foo", vec![ParamType::ScmArray(0), ParamType::Other]);
    assert_eq!(describe_guile_fn(&s, &[]).err(), Some(SubrError::UnexpectedType(ParamType::Other)));
    let s = signature("foo", vec![ParamType::Scm]);
    assert_eq!(describe_raw_subr(&s, &[]).err(), Some(SubrError::Abi));
}

#[test]
fn raw_subr_inputs() {
    let mut s = signature("foo", vec![ParamType::Scm, ParamType::Scm]);
    s.abi = Some("C".to_string());
    let d = describe_raw_subr(&s, &[]).unwrap();
    assert_eq!(d.inputs, Inputs { required: 2, optional: 0, rest: false });
    assert_eq!(
        Inputs::from_params(&[ParamType::Scm, ParamType::Other, ParamType::OptionScm, ParamType::Other, ParamType::Scm]),
        Ok(Inputs { required: 1, optional: 1, rest: true })
    );
    assert_eq!(
        Inputs::from_params(&[ParamType::Other, ParamType::Other, ParamType::Other, ParamType::OptionScm]),
        Err(ParamType::OptionScm)
    );
}

#[test]
fn define_fn_arguments() {
    let mut api = Api::new();
    let d = describe_guile_fn(
        &signature("set_executed", vec![ParamType::ScmArray(1), ParamType::OptionScmArray(2), ParamType::Scm]),
        &[],
    )
    .unwrap();
    let args = with_guile(&mut api, |api| api.define_fn(&d));
    assert_eq!(args.name, "set-executed");
    assert_eq!((args.required, args.optional, args.rest), (1, 2, 1));
    assert_eq!(Scm::new(7).0, 7);
}

#[test]
fn define_fn() {
    let mut api = Api::new();
    let d = describe_guile_fn(
        &signature("set_executed", vec![ParamType::ScmArray(1), ParamType::OptionScmArray(0)]),
        &[],
    )
    .unwrap();
    let args = with_guile(&mut api, |api| api.define_fn(&d));
    assert_eq!(args.name, "set-executed");
    assert_eq!((args.required, args.optional, args.rest), (1, 0, 0));
}
