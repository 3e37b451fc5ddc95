use simple_shell::shell::{Shell, Startup};

fn strings(items: &[&str]) -> Vec<String> {
    items.iter().map(|s| s.to_string()).collect()
}

#[test]
fn test_get_prompt_default() {
    let prompt = Shell::get_prompt(None);

    assert_eq!("shell>", prompt);
}

#[test]
fn test_get_prompt_custom() {
    let prompt = Shell::get_prompt(Some(String::from("foo>")));

    assert_eq!("foo>", prompt);
}

#[test]
fn get_prompt_keeps_an_empty_value() {
    assert_eq!("", Shell::get_prompt(Some(String::new())));
}

#[test]
fn parse_args_knows_the_version_flag() {
    assert_eq!(Startup::Version, Shell::parse_args(&strings(&["simple-shell", "-v"])));
}

#[test]
fn parse_args_knows_the_help_flag() {
    assert_eq!(Startup::Usage, Shell::parse_args(&strings(&["simple-shell", "-h"])));
}

#[test]
fn parse_args_without_arguments_is_interactive() {
    assert_eq!(Startup::Interactive, Shell::parse_args(&strings(&["simple-shell"])));
    assert_eq!(Startup::Interactive, Shell::parse_args(&strings(&[])));
}

#[test]
fn parse_args_ignores_what_it_does_not_know() {
    assert_eq!(Startup::Interactive, Shell::parse_args(&strings(&["simple-shell", "-x"])));
    assert_eq!(Startup::Interactive, Shell::parse_args(&strings(&["simple-shell", "--help"])));
    assert_eq!(Startup::Interactive, Shell::parse_args(&strings(&["simple-shell", "-vh"])));
    assert_eq!(Startup::Interactive, Shell::parse_args(&strings(&["simple-shell", ""])));
}

#[test]
fn parse_args_reads_the_first_argument_only() {
    assert_eq!(Startup::Version, Shell::parse_args(&strings(&["simple-shell", "-v", "-h"])));
    assert_eq!(Startup::Usage, Shell::parse_args(&strings(&["simple-shell", "-h", "-v"])));
    assert_eq!(Startup::Interactive, Shell::parse_args(&strings(&["simple-shell", "x", "-v"])));
    assert_eq!(Startup::Interactive, Shell::parse_args(&strings(&["-v"])));
}
