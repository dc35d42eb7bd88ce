use solver::config::{ConfigError, LevelFilter, LogOutput, Solver};

fn parse(text: &str) -> Result<Solver, ConfigError> {
    let bytes: Vec<u8> = text.as_bytes().to_vec();
    Solver::from_file(&bytes)
}

#[test]
fn parses_a_full_configuration() {
    let conf = parse(
        "[problems]\n\
         dir = \"problems\"\n\
         [solutions]\n\
         dir = \"solutions\"\n\
         [log]\n\
         level = \"info\"\n\
         output = \"stdout\"\n",
    )
    .unwrap();
    assert_eq!(conf.problems.dir, b"problems".to_vec());
    assert_eq!(conf.solutions.dir, b"solutions".to_vec());
    assert_eq!(conf.log.level, LevelFilter::Info);
    assert_eq!(conf.log.output, LogOutput::StdOut);
}

#[test]
fn parses_a_file_output() {
    let conf = parse(
        "[problems]\ndir = \"p\"\n[solutions]\ndir = \"s\"\n[log]\nlevel = \"debug\"\noutput = { file = \"solver.log\" }\n",
    )
    .unwrap();
    assert_eq!(conf.log.output, LogOutput::File(b"solver.log".to_vec()));
}

#[test]
fn level_names_are_case_insensitive() {
    for (name, expected) in [
        ("OFF", LevelFilter::Off),
        ("Error", LevelFilter::Error),
        ("warn", LevelFilter::Warn),
        ("INFO", LevelFilter::Info),
        ("Debug", LevelFilter::Debug),
        ("tRaCe", LevelFilter::Trace),
    ] {
        let text = format!(
            "[problems]\ndir = \"p\"\n[solutions]\ndir = \"s\"\n[log]\nlevel = \"{}\"\noutput = \"stdout\"\n",
            name
        );
        let conf = parse(&text).unwrap();
        assert_eq!(conf.log.level, expected);
    }
}

#[test]
fn skips_comments_blank_lines_and_crlf() {
    let conf = parse(
        "# solver configuration\r\n\
         \r\n\
         [problems]\r\n\
         dir = \"in\"\r\n\
         \t\r\n\
         [solutions]\r\n\
         dir = \"out\"\r\n\
         [log]\r\n\
         # verbose\r\n\
         level = \"trace\"\r\n\
         output = \"stdout\"\r\n",
    )
    .unwrap();
    assert_eq!(conf.problems.dir, b"in".to_vec());
    assert_eq!(conf.solutions.dir, b"out".to_vec());
    assert_eq!(conf.log.level, LevelFilter::Trace);
}

#[test]
fn ignores_unknown_sections_and_keys() {
    let conf = parse(
        "[problems]\n\
         dir = \"p\"\n\
         note = \"ignored\"\n\
         [extra]\n\
         anything = \"here\"\n\
         [solutions]\n\
         dir = \"s\"\n\
         [log]\n\
         level = \"warn\"\n\
         output = \"stdout\"\n",
    )
    .unwrap();
    assert_eq!(conf.problems.dir, b"p".to_vec());
    assert_eq!(conf.log.level, LevelFilter::Warn);
}

#[test]
fn a_later_binding_wins() {
    let conf = parse(
        "[problems]\ndir = \"first\"\ndir = \"second\"\n[solutions]\ndir = \"s\"\n[log]\nlevel = \"info\"\noutput = \"stdout\"\n",
    )
    .unwrap();
    assert_eq!(conf.problems.dir, b"second".to_vec());
}

#[test]
fn missing_field_is_reported() {
    let err = parse("[problems]\ndir = \"p\"\n[log]\nlevel = \"info\"\noutput = \"stdout\"\n")
        .unwrap_err();
    assert_eq!(err, ConfigError::MissingField);
    let err = parse("").unwrap_err();
    assert_eq!(err, ConfigError::MissingField);
}

#[test]
fn an_unknown_level_is_rejected() {
    let err = parse(
        "[problems]\ndir = \"p\"\n[solutions]\ndir = \"s\"\n[log]\nlevel = \"loud\"\noutput = \"stdout\"\n",
    )
    .unwrap_err();
    assert_eq!(err, ConfigError::InvalidLevel);
}

#[test]
fn an_unknown_output_is_rejected() {
    let err = parse(
        "[problems]\ndir = \"p\"\n[solutions]\ndir = \"s\"\n[log]\nlevel = \"info\"\noutput = \"nowhere\"\n",
    )
    .unwrap_err();
    assert_eq!(err, ConfigError::InvalidOutput);
    let err = parse(
        "[problems]\ndir = \"p\"\n[solutions]\ndir = \"s\"\n[log]\nlevel = \"info\"\noutput = { pipe = \"x\" }\n",
    )
    .unwrap_err();
    assert_eq!(err, ConfigError::InvalidOutput);
}

#[test]
fn a_malformed_line_is_rejected() {
    assert_eq!(parse("what is this\n").unwrap_err(), ConfigError::InvalidLine);
    assert_eq!(parse("[problems\ndir = \"p\"\n").unwrap_err(), ConfigError::InvalidLine);
    assert_eq!(parse("[problems]\ndir = unquoted\n").unwrap_err(), ConfigError::InvalidLine);
    assert_eq!(
        parse("[problems]\ndir = \"esc\\ape\"\n").unwrap_err(),
        ConfigError::InvalidLine
    );
}

#[test]
fn a_level_binding_outside_log_is_ignored() {
    let err = parse(
        "level = \"info\"\noutput = \"stdout\"\n[problems]\ndir = \"p\"\n[solutions]\ndir = \"s\"\n",
    )
    .unwrap_err();
    assert_eq!(err, ConfigError::MissingField);
}

#[test]
fn the_first_bad_line_wins_over_a_missing_field() {
    // The malformed line is hit before the scan can notice missing fields.
    assert_eq!(
        parse("[problems]\nbroken line\n").unwrap_err(),
        ConfigError::InvalidLine
    );
    // A malformed line is still an error when every field is already bound.
    assert_eq!(
        parse(
            "[problems]\ndir = \"p\"\n[solutions]\ndir = \"s\"\n[log]\nlevel = \"info\"\noutput = \"stdout\"\nbroken line\n",
        )
        .unwrap_err(),
        ConfigError::InvalidLine
    );
}

#[test]
fn quoted_values_may_hold_delimiters() {
    let conf = parse(
        "[problems]\ndir = \"a=b#c\"\n[solutions]\ndir = \"s\"\n[log]\nlevel = \"info\"\noutput = \"stdout\"\n",
    )
    .unwrap();
    assert_eq!(conf.problems.dir, b"a=b#c".to_vec());
}

#[test]
fn header_whitespace_is_trimmed() {
    let conf = parse(
        "  [ problems ]  \n  dir  =  \"p\"  \n[solutions]\ndir = \"s\"\n[log]\nlevel = \"off\"\noutput = \"stdout\"\n",
    )
    .unwrap();
    assert_eq!(conf.problems.dir, b"p".to_vec());
    assert_eq!(conf.log.level, LevelFilter::Off);
}
