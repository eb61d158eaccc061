use argster::ArgsItem;
use argster::from_args::Error;
use argster::from_args::FromArgsItem;
use argster::from_args::impls::ArgPath;

fn invalid(arg: &str, expected: &str, found: &str) -> Error {
    Error::InvalidType {
        arg: arg.to_string(),
        expected: expected.to_string(),
        found: found.to_string(),
    }
}

#[test]
fn string_coercion() {
    let item = ArgsItem::String("world".to_string());
    assert_eq!(String::from_args_item(Some(&item)), Ok("world".to_string()));
    assert_eq!(
        String::from_args_item(Some(&ArgsItem::Present)),
        Err(invalid("string", "string", "flag"))
    );
    assert_eq!(
        String::from_args_item(Some(&ArgsItem::Many(vec!["a".to_string()]))),
        Err(invalid("string", "string", "list"))
    );
    assert_eq!(
        String::from_args_item(None),
        Err(Error::NotFound("string".to_string()))
    );
}

#[test]
fn unsigned_coercion_parses_decimal() {
    let item = ArgsItem::String("42".to_string());
    assert_eq!(u64::from_args_item(Some(&item)), Ok(42));
    assert_eq!(u8::from_args_item(Some(&item)), Ok(42));
    assert_eq!(usize::from_args_item(Some(&item)), Ok(42));

    let plus = ArgsItem::String("+7".to_string());
    assert_eq!(u32::from_args_item(Some(&plus)), Ok(7));

    let bad = ArgsItem::String("4x2".to_string());
    assert_eq!(
        u64::from_args_item(Some(&bad)),
        Err(invalid(
            "",
            "<positive number>",
            "string: invalid digit found in string"
        ))
    );

    let huge = ArgsItem::String("999".to_string());
    assert_eq!(
        u8::from_args_item(Some(&huge)),
        Err(invalid(
            "",
            "<positive number>",
            "string: number too large to fit in target type"
        ))
    );

    let empty = ArgsItem::String("".to_string());
    assert_eq!(
        u64::from_args_item(Some(&empty)),
        Err(invalid(
            "",
            "<positive number>",
            "string: cannot parse integer from empty string"
        ))
    );
}

#[test]
fn signed_coercion_parses_decimal() {
    assert_eq!(
        i64::from_args_item(Some(&ArgsItem::String("-5".to_string()))),
        Ok(-5)
    );
    assert_eq!(
        i8::from_args_item(Some(&ArgsItem::String("-128".to_string()))),
        Ok(-128)
    );
    assert_eq!(
        i8::from_args_item(Some(&ArgsItem::String("-129".to_string()))),
        Err(invalid(
            "",
            "<number>",
            "string: number too large to fit in target type"
        ))
    );
    assert_eq!(
        i32::from_args_item(Some(&ArgsItem::String("+11".to_string()))),
        Ok(11)
    );
    assert_eq!(
        u64::from_args_item(Some(&ArgsItem::String("-5".to_string()))),
        Err(invalid(
            "",
            "<positive number>",
            "string: invalid digit found in string"
        ))
    );
}

#[test]
fn numeric_count_coercion_yields_count() {
    let three = ArgsItem::PresentTimes(3);
    assert_eq!(u8::from_args_item(Some(&three)), Ok(3));
    assert_eq!(u16::from_args_item(Some(&three)), Ok(3));
    assert_eq!(u32::from_args_item(Some(&three)), Ok(3));
    assert_eq!(u64::from_args_item(Some(&three)), Ok(3));
    assert_eq!(u128::from_args_item(Some(&three)), Ok(3));
    assert_eq!(usize::from_args_item(Some(&three)), Ok(3));
    assert_eq!(i8::from_args_item(Some(&three)), Ok(3));
    assert_eq!(i16::from_args_item(Some(&three)), Ok(3));
    assert_eq!(i32::from_args_item(Some(&three)), Ok(3));
    assert_eq!(i64::from_args_item(Some(&three)), Ok(3));
    assert_eq!(isize::from_args_item(Some(&three)), Ok(3));
}

#[test]
fn numeric_count_wraps_like_a_narrowing_cast() {
    let many = ArgsItem::PresentTimes(300);
    assert_eq!(u8::from_args_item(Some(&many)), Ok(300u64 as u8));
    assert_eq!(i8::from_args_item(Some(&many)), Ok(300i64 as i8));
    assert_eq!(u16::from_args_item(Some(&many)), Ok(300));
}

#[test]
fn numeric_rejects_bare_flag() {
    assert_eq!(
        u64::from_args_item(Some(&ArgsItem::Present)),
        Err(invalid("", "<positive number>", "flag"))
    );
    assert_eq!(
        i64::from_args_item(Some(&ArgsItem::Present)),
        Err(invalid("", "<number>", "flag"))
    );
    assert_eq!(
        u64::from_args_item(None),
        Err(Error::NotFound("".to_string()))
    );
}

#[test]
fn bool_coercion_total_on_absence_and_flag() {
    assert_eq!(bool::from_args_item(None), Ok(false));
    assert_eq!(bool::from_args_item(Some(&ArgsItem::Present)), Ok(true));
    assert_eq!(
        bool::from_args_item(Some(&ArgsItem::String("true".to_string()))),
        Ok(true)
    );
    assert_eq!(
        bool::from_args_item(Some(&ArgsItem::String("false".to_string()))),
        Ok(false)
    );
    assert_eq!(
        bool::from_args_item(Some(&ArgsItem::String("yes".to_string()))),
        Err(invalid(
            "string",
            "bool",
            "string: provided string was not `true` or `false`"
        ))
    );
    assert_eq!(
        bool::from_args_item(Some(&ArgsItem::Many(vec!["a".to_string()]))),
        Err(invalid("string", "true|false", "list"))
    );
    assert_eq!(
        bool::from_args_item(Some(&ArgsItem::PresentTimes(2))),
        Err(invalid("string", "true|false", "flag "))
    );
}

#[test]
fn path_coercion_keeps_text() {
    let item = ArgsItem::String("/tmp/x".to_string());
    assert_eq!(
        ArgPath::from_args_item(Some(&item)),
        Ok(ArgPath {
            path: "/tmp/x".to_string()
        })
    );
    assert_eq!(
        ArgPath::from_args_item(None),
        Err(Error::NotFound("string".to_string()))
    );
}

#[test]
fn optional_coercion_defaults_to_none() {
    assert_eq!(Option::<u32>::from_args_item(None), Ok(None));
    assert_eq!(
        Option::<u32>::from_args_item(Some(&ArgsItem::String("9".to_string()))),
        Ok(Some(9))
    );
    assert_eq!(
        Option::<u32>::from_args_item(Some(&ArgsItem::String("x".to_string()))),
        Err(invalid(
            "",
            "<positive number>",
            "string: invalid digit found in string"
        ))
    );
}

#[test]
fn list_coercion_splits_on_commas() {
    let item = ArgsItem::String("a,b".to_string());
    assert_eq!(
        Vec::<String>::from_args_item(Some(&item)),
        Ok(vec!["a".to_string(), "b".to_string()])
    );

    let nums = ArgsItem::String("1,2,3".to_string());
    assert_eq!(Vec::<u64>::from_args_item(Some(&nums)), Ok(vec![1, 2, 3]));

    let many = ArgsItem::Many(vec!["4".to_string(), "5".to_string()]);
    assert_eq!(Vec::<u64>::from_args_item(Some(&many)), Ok(vec![4, 5]));

    let partly = ArgsItem::String("1,x".to_string());
    assert_eq!(
        Vec::<u64>::from_args_item(Some(&partly)),
        Err(invalid(
            "",
            "<positive number>",
            "string: invalid digit found in string"
        ))
    );

    assert_eq!(
        Vec::<String>::from_args_item(None),
        Err(Error::NotFound("string".to_string()))
    );
    assert_eq!(
        Vec::<String>::from_args_item(Some(&ArgsItem::Present)),
        Err(invalid("string", "list", "flag"))
    );
}

#[test]
fn metadata_describes_each_type() {
    assert_eq!(<u32 as FromArgsItem>::type_label(), "u32");
    assert_eq!(<u32 as FromArgsItem>::type_desc(), "<positive number>");
    assert_eq!(<u32 as FromArgsItem>::type_extra(), "");
    assert_eq!(<i64 as FromArgsItem>::type_desc(), "<number>");
    assert_eq!(<bool as FromArgsItem>::type_extra(), "flag");
    assert_eq!(<Option<u32> as FromArgsItem>::type_extra(), "optional");
    assert_eq!(<Vec<String> as FromArgsItem>::type_extra(), "list");
    assert_eq!(<Vec<String> as FromArgsItem>::type_label(), "String");
    assert_eq!(<ArgPath as FromArgsItem>::type_desc(), "<path>");
}

#[test]
fn error_with_name_renames_only_the_argument() {
    let e = Error::NotFound("string".to_string()).with_name("times");
    assert_eq!(e, Error::NotFound("times".to_string()));

    let e = invalid("", "<number>", "flag").with_name("level");
    assert_eq!(e, invalid("level", "<number>", "flag"));

    assert_eq!(Error::NoCommand.with_name("x"), Error::NoCommand);
}

#[test]
fn error_messages() {
    assert_eq!(
        Error::NotFound("times".to_string()).message(),
        "Required argument times not found"
    );
    assert_eq!(
        invalid("times", "<number>", "flag").message(),
        "Expected times to be of type <number>, but found flag"
    );
    assert_eq!(Error::NoCommand.message(), "Please enter a commond");
    assert_eq!(
        Error::UnknownCommand("frob".to_string()).message(),
        "Unknown command frob"
    );
}
