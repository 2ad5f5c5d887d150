use yaf::{parse_color_number, parse_var, replace_var, Fact, Lookup, RenderError};

fn fact_of(name: &str) -> Fact {
    match replace_var(name) {
        Ok(Lookup::Fact(f)) => f,
        other => panic!("unexpected result {:?}", other),
    }
}

fn literal_of(name: &str) -> String {
    match replace_var(name) {
        Ok(Lookup::Literal(s)) => s,
        other => panic!("unexpected result {:?}", other),
    }
}

#[test]
fn fact_names() {
    assert_eq!(fact_of("username"), Fact::Username);
    assert_eq!(fact_of("hostname"), Fact::Hostname);
    assert_eq!(fact_of("distro"), Fact::Distro);
    assert_eq!(fact_of("kernel"), Fact::Kernel);
    assert_eq!(fact_of("uptime"), Fact::Uptime);
    assert_eq!(fact_of("pkgs"), Fact::Pkgs);
    assert_eq!(fact_of("shell"), Fact::Shell);
}

#[test]
fn style_names() {
    assert_eq!(literal_of("reset"), "\x1b[0m");
    assert_eq!(literal_of("bold"), "\x1b[1m");
    assert_eq!(literal_of("dim"), "\x1b[2m");
    assert_eq!(literal_of("italic"), "\x1b[3m");
    assert_eq!(literal_of("underline"), "\x1b[4m");
}

#[test]
fn colors() {
    assert_eq!(literal_of("color0"), "\x1b[38;5;0m");
    assert_eq!(literal_of("color42"), "\x1b[38;5;42m");
    assert_eq!(literal_of("color007"), "\x1b[38;5;7m");
    assert_eq!(literal_of("color255"), "\x1b[38;5;255m");
}

#[test]
fn bad_colors() {
    assert_eq!(
        replace_var("color"),
        Err(RenderError::UnknownColor(String::new()))
    );
    assert_eq!(
        replace_var("colorx"),
        Err(RenderError::UnknownColor(String::from("x")))
    );
    assert_eq!(
        replace_var("color1000"),
        Err(RenderError::UnknownColor(String::from("1000")))
    );
}

#[test]
fn names_are_case_sensitive() {
    assert_eq!(
        replace_var("Username"),
        Err(RenderError::UnknownVariable(String::from("Username")))
    );
    assert_eq!(
        replace_var(""),
        Err(RenderError::UnknownVariable(String::new()))
    );
}

#[test]
fn sigils() {
    match parse_var("$PATH") {
        Ok(Lookup::Env(n)) => assert_eq!(n, "PATH"),
        other => panic!("unexpected result {:?}", other),
    }
    match parse_var("#uname -r") {
        Ok(Lookup::Shell(c)) => assert_eq!(c, "uname -r"),
        other => panic!("unexpected result {:?}", other),
    }
    match parse_var("@kernel") {
        Ok(Lookup::Fact(f)) => assert_eq!(f, Fact::Kernel),
        other => panic!("unexpected result {:?}", other),
    }
    match parse_var("$") {
        Ok(Lookup::Env(n)) => assert_eq!(n, ""),
        other => panic!("unexpected result {:?}", other),
    }
}

#[test]
fn empty_and_unknown_bodies() {
    assert_eq!(
        parse_var(""),
        Err(RenderError::UnknownVariable(String::new()))
    );
    assert_eq!(
        parse_var("username"),
        Err(RenderError::UnknownVariable(String::from("username")))
    );
    assert_eq!(
        parse_var("@nope"),
        Err(RenderError::UnknownVariable(String::from("nope")))
    );
}

#[test]
fn color_numbers() {
    assert_eq!(parse_color_number("0"), Some(0));
    assert_eq!(parse_color_number("255"), Some(255));
    assert_eq!(parse_color_number("0255"), Some(255));
    assert_eq!(parse_color_number("256"), None);
    assert_eq!(parse_color_number("99999999999999999999"), None);
    assert_eq!(parse_color_number(""), None);
    assert_eq!(parse_color_number("+1"), None);
    assert_eq!(parse_color_number(" 1"), None);
    assert_eq!(parse_color_number("1a"), None);
}
