use empl::argument::{Flag as IterFlag, FlagIter, NonFlagError as IterNonFlagError};
use empl::flag::{Argument, Arguments, ArgumentsError, Flag, NonFlagError};

fn collect_argument(input: &'static str) -> Vec<Flag<'static>> {
    let mut arg = Argument::try_from(input).unwrap();
    let mut out = Vec::new();
    while let Some(flag) = arg.next() {
        out.push(flag);
    }
    out
}

#[test]
fn argument_try_from() {
    assert_eq!(Argument::try_from("--"), Err(NonFlagError("--")));
    assert_eq!(Argument::try_from("-"), Err(NonFlagError("-")));
    assert_eq!(Argument::try_from("a"), Err(NonFlagError("a")));
    assert_eq!(Argument::try_from("foo"), Err(NonFlagError("foo")));
    assert_eq!(Argument::try_from("-a"), Ok(Argument::Short("a")));
    assert_eq!(
        Argument::try_from("--help"),
        Ok(Argument::Long { flag: Some("help"), value: None })
    );
    assert_eq!(
        Argument::try_from("--foo=bar"),
        Ok(Argument::Long { flag: Some("foo"), value: Some("bar") })
    );
    assert_eq!(
        Argument::try_from("--foo=bar=baz"),
        Ok(Argument::Long { flag: Some("foo"), value: Some("bar=baz") })
    );
}

#[test]
fn argument_collect() {
    assert_eq!(
        collect_argument("-foo"),
        vec![Flag::Short('f'), Flag::Short('o'), Flag::Short('o')]
    );
    assert_eq!(
        collect_argument("-foo=bar"),
        vec![Flag::Short('f'), Flag::Short('o'), Flag::Short('o')]
    );
    assert_eq!(collect_argument("--help"), vec![Flag::Long("help")]);
    assert_eq!(collect_argument("-é"), vec![Flag::Short('é')]);
}

#[test]
fn argument_value() {
    fn value_after(input: &'static str, steps: usize) -> Option<&'static str> {
        let mut arg = Argument::try_from(input).unwrap();
        for _ in 0..steps {
            let _ = arg.next();
        }
        arg.value()
    }
    assert_eq!(value_after("--foo=bar", 0), Some("bar"));
    assert_eq!(value_after("-foo=bar", 3), Some("bar"));
    assert_eq!(value_after("-foo", 3), None);
    assert_eq!(value_after("-fbar", 1), Some("bar"));
    assert_eq!(value_after("--foo", 0), None);
}

fn collect_arguments(input: &[&'static str]) -> Result<Vec<Flag<'static>>, ArgumentsError<'static, ()>> {
    let mut args = Arguments::new(input.iter().map(|s| Ok::<_, ()>(*s)).collect());
    let mut out = Vec::new();
    while let Some(flag) = args.next() {
        out.push(flag?);
    }
    Ok(out)
}

#[test]
fn arguments_collect() {
    assert_eq!(
        collect_arguments(&["--help", "-lsh"]),
        Ok(vec![Flag::Long("help"), Flag::Short('l'), Flag::Short('s'), Flag::Short('h')])
    );
    assert_eq!(
        collect_arguments(&["--help", "-lsh", "--", "--foo", "hello", "world"]),
        Ok(vec![Flag::Long("help"), Flag::Short('l'), Flag::Short('s'), Flag::Short('h')])
    );
    assert_eq!(
        collect_arguments(&["-foo", "--bar"]),
        Ok(vec![Flag::Short('f'), Flag::Short('o'), Flag::Short('o'), Flag::Long("bar")])
    );
    assert_eq!(
        collect_arguments(&["-a", "b"]),
        Err(ArgumentsError::NonFlag(NonFlagError("b")))
    );
}

#[test]
fn arguments_source_error() {
    let mut args: Arguments<'static, u8> = Arguments::new(vec![Ok("-a"), Err(7)]);
    assert_eq!(args.next(), Some(Ok(Flag::Short('a'))));
    assert_eq!(args.next(), Some(Err(ArgumentsError::Source(7))));
    assert_eq!(args.next(), None);
}

#[test]
fn arguments_value() {
    fn value_after(input: &[&'static str], steps: usize) -> Option<Result<&'static str, ()>> {
        let mut args = Arguments::new(input.iter().map(|s| Ok::<_, ()>(*s)).collect());
        for _ in 0..steps {
            let _ = args.next();
        }
        args.value()
    }
    assert_eq!(value_after(&["--foo", "bar"], 1), Some(Ok("bar")));
    assert_eq!(value_after(&["--foo=baz"], 1), Some(Ok("baz")));
    assert_eq!(value_after(&["foo"], 0), Some(Ok("foo")));
    assert_eq!(value_after(&["--foo", "-b"], 1), None);
}

#[test]
fn flag_iter_try_from() {
    assert_eq!(FlagIter::try_from("--"), Err(IterNonFlagError("--")));
    assert_eq!(FlagIter::try_from("-"), Err(IterNonFlagError("-")));
    assert_eq!(FlagIter::try_from("-a"), Ok(FlagIter::Short("a")));
    assert_eq!(
        FlagIter::try_from("--help"),
        Ok(FlagIter::Long { flag: Some("help"), value: None })
    );
    assert_eq!(
        FlagIter::try_from("--foo=bar"),
        Ok(FlagIter::Long { flag: Some("foo"), value: Some("bar") })
    );
    let mut it = FlagIter::try_from("-foo=bar").unwrap();
    let mut flags = Vec::new();
    while let Some(f) = it.next() {
        flags.push(f);
    }
    assert_eq!(flags, vec![IterFlag::Short('f'), IterFlag::Short('o'), IterFlag::Short('o')]);
}

#[test]
fn flag_iter_value() {
    let mut flag = FlagIter::try_from("--foo=bar").unwrap();
    assert_eq!(flag.value(), Some("bar"));
    flag = FlagIter::try_from("-foo=bar").unwrap();
    for _ in 0..3 {
        let _ = flag.next();
    }
    assert_eq!(flag.value(), Some("bar"));
    flag = FlagIter::try_from("-foo").unwrap();
    for _ in 0..3 {
        let _ = flag.next();
    }
    assert_eq!(flag.value(), Some(""));
}
