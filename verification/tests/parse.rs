use simple_shell::shell::Shell;
use simple_shell::text::{char_is_whitespace, chars_of, same_text, substring, trim_bounds};

fn strings(items: &[&str]) -> Vec<String> {
    items.iter().map(|s| s.to_string()).collect()
}

fn split_like_std(line: &str) -> Vec<String> {
    line.trim().split(" ").map(|s| s.to_string()).collect()
}

#[test]
fn test_cmd_parse_two() {
    // The string we want to parse from the user
    // foo -v
    let stng: String = String::from("foo -v");

    let actual = Shell::cmd_parse(stng).unwrap();

    let expected: Vec<String> = vec![String::from("foo"), String::from("-v")];

    assert_eq!(expected, actual);
}

#[test]
fn test_cmd_parse() {
    let rval: Vec<String> = Shell::cmd_parse(String::from("ls -a -l")).unwrap();

    let expected: Vec<String> = vec![String::from("ls"), String::from("-a"), String::from("-l")];

    assert_eq!(expected, rval);
}

#[test]
fn test_trim_white_no_whitespace() {
    let rval = Shell::trim_white(String::from("ls -a"));

    assert_eq!("ls -a", rval);
}

#[test]
fn test_trim_white_start_whitespace() {
    let rval = Shell::trim_white(String::from("  ls -a"));

    assert_eq!("ls -a", rval);
}

#[test]
fn test_trim_white_end_whitespace() {
    let rval = Shell::trim_white(String::from("ls -a  "));

    assert_eq!("ls -a", rval);
}

#[test]
fn test_trim_white_both_whitespace() {
    let rval = Shell::trim_white(String::from(" ls -a "));

    assert_eq!("ls -a", rval);
}

#[test]
fn test_trim_white_all_whitespace() {
    let rval = Shell::trim_white(String::from(" "));

    assert_eq!("", rval);
}

#[test]
fn cmd_parse_trims_before_splitting() {
    let actual = Shell::cmd_parse(String::from("  ls -a  ")).unwrap();

    assert_eq!(strings(&["ls", "-a"]), actual);
}

#[test]
fn cmd_parse_keeps_empty_pieces_between_spaces() {
    let actual = Shell::cmd_parse(String::from("a  b")).unwrap();

    assert_eq!(strings(&["a", "", "b"]), actual);
}

#[test]
fn cmd_parse_of_whitespace_is_one_empty_argument() {
    assert_eq!(strings(&[""]), Shell::cmd_parse(String::from("   ")).unwrap());
    assert_eq!(strings(&[""]), Shell::cmd_parse(String::new()).unwrap());
}

#[test]
fn cmd_parse_splits_at_spaces_only() {
    let actual = Shell::cmd_parse(String::from("echo a\tb\u{a0}c")).unwrap();

    assert_eq!(strings(&["echo", "a\tb\u{a0}c"]), actual);
}

#[test]
fn cmd_parse_rejects_a_null_character() {
    let r = Shell::cmd_parse(String::from("echo a\0b"));

    assert_eq!(Err(String::from("command holds a null character")), r);
}

#[test]
fn cmd_parse_rejects_a_null_character_anywhere() {
    assert!(Shell::cmd_parse(String::from("\0")).is_err());
    assert!(Shell::cmd_parse(String::from(" \0 ")).is_err());
    assert!(Shell::cmd_parse(String::from("ls -a \0")).is_err());
    assert!(Shell::cmd_parse(String::from("\0ls")).is_err());
    assert!(Shell::cmd_parse(String::from("a b c\0 d")).is_err());
}

#[test]
fn cmd_parse_agrees_with_trim_and_split() {
    let lines = [
        "",
        " ",
        "ls",
        "ls -a",
        " ls  -a   -l ",
        "\t\n cd /tmp \r\n",
        "a b c d e f g",
        "  x",
        "x  ",
        "é ü  ñ",
        "\u{3000}wide\u{3000}",
        "\u{2003}em space\u{2003}",
        "tab\tinside",
        " \u{85}next line\u{85} ",
        "日本語 テキスト",
        "a\u{1680}b",
    ];
    for line in lines.iter() {
        let actual = Shell::cmd_parse(line.to_string()).unwrap();
        assert_eq!(split_like_std(line), actual, "line {:?}", line);
    }
}

#[test]
fn trim_white_agrees_with_trim() {
    let lines = [
        "",
        " ",
        "\t",
        "a",
        " a",
        "a ",
        " a b ",
        "\r\n a \r\n",
        "\u{b}\u{c}x\u{b}\u{c}",
        "\u{85}x\u{a0}",
        "\u{1680}x\u{2000}\u{2001}\u{2002}\u{2003}\u{2004}\u{2005}",
        "\u{2006}\u{2007}\u{2008}\u{2009}\u{200a}x\u{2028}\u{2029}",
        "\u{202f}x\u{205f}\u{3000}",
        "\u{200b}zero width is kept\u{200b}",
        "\u{180e}not whitespace\u{180e}",
        " \0 ",
        "  mixed \u{3000} inside  ",
    ];
    for line in lines.iter() {
        let actual = Shell::trim_white(line.to_string());
        assert_eq!(line.trim(), actual, "line {:?}", line);
    }
}

#[test]
fn trim_white_twice_is_trim_white_once() {
    let lines = [" a ", "  ", "", "\t x y \n", "\u{3000}z\u{3000}", "plain"];
    for line in lines.iter() {
        let once = Shell::trim_white(line.to_string());
        let twice = Shell::trim_white(once.clone());
        assert_eq!(once, twice);
    }
}

#[test]
fn whitespace_is_what_the_standard_library_calls_whitespace() {
    let mut code: u32 = 0;
    while code <= 0x10FFFF {
        if let Some(c) = char::from_u32(code) {
            assert_eq!(c.is_whitespace(), char_is_whitespace(c), "U+{:04X}", code);
        }
        code += 1;
    }
}

#[test]
fn trim_bounds_gives_the_kept_range() {
    let chars: Vec<char> = "  ab c \t".chars().collect();
    assert_eq!((2, 6), trim_bounds(&chars));

    let blank: Vec<char> = " \t ".chars().collect();
    let (from, to) = trim_bounds(&blank);
    assert_eq!(from, to);

    let empty: Vec<char> = Vec::new();
    assert_eq!((0, 0), trim_bounds(&empty));
}

#[test]
fn chars_of_lists_the_characters() {
    assert_eq!(vec!['l', 's', ' ', 'é'], chars_of("ls é"));
    assert_eq!(Vec::<char>::new(), chars_of(""));
}

#[test]
fn substring_counts_characters_not_bytes() {
    assert_eq!("éü", substring("aéüb", 1, 3));
    assert_eq!("", substring("abc", 2, 2));
    assert_eq!("abc", substring("abc", 0, 3));
}

#[test]
fn same_text_compares_character_by_character() {
    assert!(same_text("exit", "exit"));
    assert!(same_text("", ""));
    assert!(!same_text("exit", "exit "));
    assert!(!same_text("exit", "exiT"));
    assert!(!same_text("cd", "c"));
    assert!(!same_text("", "x"));
}
