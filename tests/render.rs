use yaf::{assemble_line, env_value, parse_line, parse_var, shell_output, Lookup, RenderError};

/// Renders a line whose placeholders are styles or colors only.
fn render_styles(line: &str) -> Result<String, RenderError> {
    let scan = parse_line(line);
    let values: Result<Vec<String>, RenderError> = scan
        .bodies
        .iter()
        .map(|body| match parse_var(body)? {
            Lookup::Literal(text) => Ok(text),
            other => panic!("unexpected lookup {:?}", other),
        })
        .collect();
    assemble_line(&scan, values)
}

#[test]
fn backslash_outside_braces_is_literal() {
    assert_eq!(
        render_styles("pre\\{@reset}post"),
        Ok(String::from("pre\\\x1b[0mpost\n"))
    );
}

#[test]
fn backslash_before_brace_still_opens_placeholder() {
    let scan = parse_line("a\\{b}");
    assert_eq!(scan.texts, vec!["a\\", ""]);
    assert_eq!(scan.bodies, vec!["b"]);
    assert_eq!(
        render_styles("a\\{b}"),
        Err(RenderError::UnknownVariable(String::from("b")))
    );
}

#[test]
fn single_open_brace_is_unclosed() {
    let scan = parse_line("{");
    assert_eq!(scan.error, Some(RenderError::UnclosedBrace));
    assert_eq!(render_styles("{"), Err(RenderError::UnclosedBrace));
}

#[test]
fn single_close_brace_is_unexpected() {
    assert_eq!(render_styles("}"), Err(RenderError::UnexpectedBrace));
}

#[test]
fn nested_open_brace_is_unexpected() {
    assert_eq!(render_styles("{{}}"), Err(RenderError::UnexpectedBrace));
}

#[test]
fn unset_variable_is_missing() {
    let scan = parse_line("{$UNSET_VAR_XYZ}");
    assert_eq!(scan.bodies, vec![String::from("$UNSET_VAR_XYZ")]);
    let lookup = parse_var(&scan.bodies[0]).unwrap();
    let name = match lookup {
        Lookup::Env(name) => name,
        other => panic!("unexpected lookup {:?}", other),
    };
    assert_eq!(name, "UNSET_VAR_XYZ");
    let value = env_value(&name, None);
    assert_eq!(
        value,
        Err(RenderError::MissingEnvVar(String::from("UNSET_VAR_XYZ")))
    );
    assert_eq!(
        assemble_line(&scan, value.map(|v| vec![v])),
        Err(RenderError::MissingEnvVar(String::from("UNSET_VAR_XYZ")))
    );
}

#[test]
fn color_out_of_range_fails() {
    assert_eq!(
        render_styles("{@color256}"),
        Err(RenderError::UnknownColor(String::from("256")))
    );
}

#[test]
fn shell_output_is_trimmed() {
    let scan = parse_line("{#echo hi}");
    assert_eq!(scan.bodies, vec![String::from("#echo hi")]);
    match parse_var(&scan.bodies[0]).unwrap() {
        Lookup::Shell(cmd) => assert_eq!(cmd, "echo hi"),
        other => panic!("unexpected lookup {:?}", other),
    }
    let value = shell_output("hi\n", "");
    assert_eq!(value, Ok(String::from("hi")));
    assert_eq!(
        assemble_line(&scan, value.map(|v| vec![v])),
        Ok(String::from("hi\n"))
    );
}

#[test]
fn env_placeholder_resolves_alike_twice() {
    let scan = parse_line("{$HOME}:{$HOME}");
    let first = parse_var(&scan.bodies[0]).unwrap();
    let second = parse_var(&scan.bodies[1]).unwrap();
    let (a, b) = match (first, second) {
        (Lookup::Env(a), Lookup::Env(b)) => (a, b),
        other => panic!("unexpected lookups {:?}", other),
    };
    assert_eq!(a, b);
    let va = env_value(&a, Some(String::from("/home/me"))).unwrap();
    let vb = env_value(&b, Some(String::from("/home/me"))).unwrap();
    assert_eq!(va, vb);
    assert_eq!(
        assemble_line(&scan, Ok(vec![va, vb])),
        Ok(String::from("/home/me:/home/me\n"))
    );
}

#[test]
fn plain_line_round_trips() {
    for line in ["", "hello world", "a \\ b", "tab\there", "ünïcødé"] {
        let scan = parse_line(line);
        assert!(scan.bodies.is_empty());
        assert_eq!(assemble_line(&scan, Ok(vec![])), Ok(format!("{}\n", line)));
    }
}

#[test]
fn placeholders_are_replaced_in_place() {
    assert_eq!(
        render_styles("a{@bold}b{@reset}c"),
        Ok(String::from("a\x1b[1mb\x1b[0mc\n"))
    );
    assert_eq!(
        render_styles("{@color0}{@color255}"),
        Ok(String::from("\x1b[38;5;0m\x1b[38;5;255m\n"))
    );
}

#[test]
fn scan_splits_texts_and_bodies() {
    let scan = parse_line("x{a}y{b}z");
    assert_eq!(scan.texts, vec!["x", "y", "z"]);
    assert_eq!(scan.bodies, vec!["a", "b"]);
    assert_eq!(scan.error, None);
}

#[test]
fn escapes_inside_braces() {
    let scan = parse_line("{#echo \\}\\{\\\\}");
    assert_eq!(scan.error, None);
    assert_eq!(scan.bodies, vec!["#echo }{\\"]);
    let scan = parse_line("{#a\\nb}");
    assert_eq!(scan.bodies, vec!["#a\\nb"]);
}

#[test]
fn escaped_close_brace_leaves_line_unclosed() {
    assert_eq!(parse_line("{a\\}").error, Some(RenderError::UnclosedBrace));
}

#[test]
fn placeholder_error_comes_before_later_brace_error() {
    let scan = parse_line("{@nope}}");
    assert_eq!(scan.bodies, vec!["@nope"]);
    assert_eq!(scan.error, Some(RenderError::UnexpectedBrace));
    assert_eq!(
        render_styles("{@nope}}"),
        Err(RenderError::UnknownVariable(String::from("nope")))
    );
}

#[test]
fn brace_error_stops_the_scan() {
    let scan = parse_line("}{a}");
    assert_eq!(scan.error, Some(RenderError::UnexpectedBrace));
    assert!(scan.bodies.is_empty());
}

#[test]
fn stderr_makes_command_fail() {
    assert_eq!(
        shell_output("out", "boom\n"),
        Err(RenderError::CommandExecution(String::from("boom")))
    );
    assert_eq!(shell_output("hi \n\t", ""), Ok(String::from("hi")));
    assert_eq!(shell_output("", ""), Ok(String::new()));
}

#[test]
fn set_variable_is_verbatim() {
    assert_eq!(
        env_value("X", Some(String::from("  spaced \n"))),
        Ok(String::from("  spaced \n"))
    );
}

#[test]
fn error_messages_are_not_empty() {
    for e in [
        RenderError::UnexpectedBrace,
        RenderError::UnclosedBrace,
        RenderError::UnknownVariable(String::from("x")),
        RenderError::UnknownColor(String::new()),
        RenderError::MissingEnvVar(String::from("X")),
        RenderError::CommandExecution(String::from("e")),
        RenderError::IoFailure(String::from("io")),
    ] {
        assert!(!e.message().is_empty());
    }
    assert_eq!(
        RenderError::UnknownVariable(String::from("x")).message(),
        "Unknown variable: x"
    );
}
