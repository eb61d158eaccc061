use argster::dispatch::ArgSpec;
use argster::dispatch::ArgValue;
use argster::dispatch::BaseType;
use argster::dispatch::CommandSchema;
use argster::dispatch::DispatchOutcome;
use argster::dispatch::LeafValue;
use argster::dispatch::Modifier;
use argster::dispatch::bind_command;
use argster::dispatch::command_help_rows;
use argster::dispatch::dispatch;
use argster::dispatch::overview_rows;
use argster::from_args::Error;
use argster::parse_args;
use argster::schema::DocData;
use argster::schema::SchemaError;
use argster::schema::parse_doc_block;

fn doc(long: &str, short: Option<&str>, docs: &str) -> DocData {
    DocData {
        long: long.to_string(),
        short: short.map(|s| s.to_string()),
        docs: docs.to_string(),
    }
}

fn demo_schema() -> Vec<CommandSchema> {
    vec![
        CommandSchema {
            name: "hello".to_string(),
            help: "A hello command".to_string(),
            args: vec![
                ArgSpec {
                    doc: doc("input", None, "The name to greet"),
                    base: BaseType::Text,
                    modifier: Modifier::Required,
                },
                ArgSpec {
                    doc: doc("number", Some("n"), "The number of times to greet them"),
                    base: BaseType::Unsigned,
                    modifier: Modifier::Optional,
                },
            ],
        },
        CommandSchema {
            name: "goodbye".to_string(),
            help: "Does the oppisite of hello".to_string(),
            args: vec![ArgSpec {
                doc: doc("input", None, "The name to dismis"),
                base: BaseType::Text,
                modifier: Modifier::Required,
            }],
        },
    ]
}

fn argv(parts: &[&str]) -> Vec<String> {
    parts.iter().map(|s| s.to_string()).collect()
}

#[test]
fn doc_line_input() {
    assert_eq!(
        DocData::from_str("input The name to greet"),
        Ok(doc("input", None, "The name to greet"))
    );
}

#[test]
fn doc_line_long_and_short() {
    assert_eq!(
        DocData::from_str("--number -n The number of times to greet them"),
        Ok(doc(
            "number",
            Some("n"),
            "The number of times to greet them"
        ))
    );
}

#[test]
fn doc_line_long_only() {
    assert_eq!(
        DocData::from_str("--verbose Say more"),
        Ok(doc("verbose", None, "Say more"))
    );
    assert_eq!(DocData::from_str("--verbose"), Ok(doc("verbose", None, "")));
}

#[test]
fn doc_line_rejects_multi_character_short() {
    assert_eq!(
        DocData::from_str("--number -nx docs"),
        Err(SchemaError::InvalidShortName {
            long: "number".to_string(),
            line: "--number -nx docs".to_string(),
        })
    );
    assert_eq!(
        DocData::from_str("--number --n docs"),
        Err(SchemaError::InvalidShortName {
            long: "number".to_string(),
            line: "--number --n docs".to_string(),
        })
    );
}

#[test]
fn doc_line_rejects_other_shapes() {
    assert_eq!(
        DocData::from_str("just some words"),
        Err(SchemaError::InvalidArgLine("just some words".to_string()))
    );
}

#[test]
fn doc_block_splits_help_and_args() {
    let lines = argv(&[
        "A hello command",
        "# Args",
        "input The name to greet",
        "--number -n The number of times to greet them",
    ]);
    let (help, args) = parse_doc_block(&lines).unwrap();
    assert_eq!(help, "A hello command");
    assert_eq!(args.len(), 2);
    assert_eq!(args[0], doc("input", None, "The name to greet"));
    assert_eq!(
        args[1],
        doc("number", Some("n"), "The number of times to greet them")
    );
}

#[test]
fn doc_block_without_marker_is_all_help() {
    let lines = argv(&["first line", "second line"]);
    let (help, args) = parse_doc_block(&lines).unwrap();
    assert_eq!(help, "first line\nsecond line");
    assert!(args.is_empty());
}

#[test]
fn doc_block_stops_at_first_bad_line() {
    let lines = argv(&["help text", "# Args", "input ok", "just some words"]);
    assert_eq!(
        parse_doc_block(&lines),
        Err(SchemaError::InvalidArgLine("just some words".to_string()))
    );
}

#[test]
fn doc_line_tolerates_surrounding_blanks() {
    assert_eq!(
        DocData::from_str("   --level -l How loud to be  "),
        Ok(doc("level", Some("l"), "How loud to be"))
    );
}

#[test]
fn bind_fills_every_argument() {
    let schema = demo_schema();
    let map = parse_args(argv(&["world", "--number", "3"]));
    let values = bind_command(&schema[0], &map).unwrap();
    assert_eq!(
        values,
        vec![
            ArgValue::Single(LeafValue::Text("world".to_string())),
            ArgValue::OptionalVal(Some(LeafValue::Unsigned(3))),
        ]
    );
}

#[test]
fn bind_reports_first_failing_argument() {
    let schema = demo_schema();
    let map = parse_args(argv(&["--number", "x"]));
    let err = bind_command(&schema[0], &map).unwrap_err();
    assert_eq!(err.0, "hello");
    assert_eq!(
        err.1,
        Error::NotFound("input".to_string())
    );
}

#[test]
fn bind_annotates_failing_argument_name() {
    let schema = demo_schema();
    let map = parse_args(argv(&["world", "--number", "x"]));
    let err = bind_command(&schema[0], &map).unwrap_err();
    assert_eq!(err.0, "hello");
    assert_eq!(
        err.1,
        Error::InvalidType {
            arg: "number".to_string(),
            expected: "<positive number>".to_string(),
            found: "string: invalid digit found in string".to_string(),
        }
    );
}

#[test]
fn bind_falls_back_to_short_key() {
    let schema = demo_schema();
    let map = parse_args(argv(&["world", "-n", "4"]));
    let values = bind_command(&schema[0], &map).unwrap();
    assert_eq!(
        values[1],
        ArgValue::OptionalVal(Some(LeafValue::Unsigned(4)))
    );
}

#[test]
fn dispatch_invokes_matching_command() {
    let outcome = dispatch(&demo_schema(), &argv(&["goodbye", "world"]));
    assert_eq!(
        outcome,
        DispatchOutcome::Invoke {
            index: 1,
            values: vec![ArgValue::Single(LeafValue::Text("world".to_string()))],
        }
    );
}

#[test]
fn dispatch_without_command_is_fatal() {
    let outcome = dispatch(&demo_schema(), &argv(&[]));
    assert_eq!(
        outcome,
        DispatchOutcome::RenderHelp {
            command: None,
            error: Some(Error::NoCommand),
        }
    );
}

#[test]
fn dispatch_rejects_unknown_command() {
    let outcome = dispatch(&demo_schema(), &argv(&["frob"]));
    assert_eq!(
        outcome,
        DispatchOutcome::RenderHelp {
            command: None,
            error: Some(Error::UnknownCommand("frob".to_string())),
        }
    );
}

#[test]
fn dispatch_surfaces_binding_error_with_names() {
    let outcome = dispatch(&demo_schema(), &argv(&["hello"]));
    assert_eq!(
        outcome,
        DispatchOutcome::RenderHelp {
            command: Some("hello".to_string()),
            error: Some(Error::NotFound("input".to_string())),
        }
    );
}

#[test]
fn dispatch_help_flag_short_circuits() {
    let outcome = dispatch(&demo_schema(), &argv(&["hello", "world", "--help"]));
    assert_eq!(
        outcome,
        DispatchOutcome::RenderHelp {
            command: Some("hello".to_string()),
            error: None,
        }
    );
}

#[test]
fn dispatch_help_command_names_a_command() {
    let outcome = dispatch(&demo_schema(), &argv(&["help", "goodbye"]));
    assert_eq!(
        outcome,
        DispatchOutcome::RenderHelp {
            command: Some("goodbye".to_string()),
            error: None,
        }
    );
}

#[test]
fn help_tables_describe_the_schema() {
    let schema = demo_schema();
    let overview = overview_rows(&schema);
    assert_eq!(
        overview,
        vec![
            ("hello".to_string(), "A hello command".to_string()),
            ("goodbye".to_string(), "Does the oppisite of hello".to_string()),
        ]
    );

    let rows = command_help_rows(&schema[0]);
    assert_eq!(rows.len(), 2);
    assert_eq!(
        rows[0],
        vec![
            "input".to_string(),
            "".to_string(),
            "String".to_string(),
            "<string>".to_string(),
            "".to_string(),
            "The name to greet".to_string(),
        ]
    );
    assert_eq!(
        rows[1],
        vec![
            "--number".to_string(),
            "--n".to_string(),
            "u64".to_string(),
            "<positive number>".to_string(),
            "optional".to_string(),
            "The number of times to greet them".to_string(),
        ]
    );
}
