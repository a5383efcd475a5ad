use nagisa_core::arg_scan::{
    arg_enum_index, at_or_id, defaulted_arg, optional_arg, raw_rest, required_arg, rest_words, scan_tokens,
    take_mention, Switch,
};
use nagisa_core::args::{ArgError, ArgToken};
use nagisa_core::ids::Uin;
use nagisa_core::matcher::Seg;

fn w(s: &str) -> ArgToken {
    ArgToken::Word(s.to_string())
}

fn switches() -> Vec<Switch> {
    vec![
        Switch { names: vec!["--verbose".to_string(), "-v".to_string()], takes_value: false },
        Switch { names: vec!["--note".to_string()], takes_value: true },
    ]
}

#[test]
fn scan_flags_options_and_words() {
    let tokens = vec![w("-v"), w("10"), w("--note"), w("hi"), w("--"), ArgToken::Element(Seg::Mention(Uin(5), 1)), w("x")];
    let s = scan_tokens(&tokens, &switches(), false);
    assert_eq!(s.words, vec!["10", "--", "x"]);
    assert_eq!(s.flags, vec![true, false]);
    assert_eq!(s.values, vec![None, Some("hi".to_string())]);
    assert_eq!(s.flag_words, 3);
    assert_eq!(s.consumed, vec![false, false, false, true, false, false, false]);
}

#[test]
fn scan_option_values() {
    let s = scan_tokens(&[w("--note"), w("--verbose")], &switches(), false);
    assert_eq!(s.values, vec![None, None]);
    assert_eq!(s.flags, vec![true, false]);
    assert_eq!(s.flag_words, 2);
    let neg = scan_tokens(&[w("--note"), w("-1")], &switches(), false);
    assert_eq!(neg.values[1], Some("-1".to_string()));
    assert!(neg.words.is_empty());
    let last = scan_tokens(&[w("--note"), w("a"), w("--note"), w("b")], &switches(), false);
    assert_eq!(last.values[1], Some("b".to_string()));
    assert_eq!(last.flag_words, 4);
    let dangling = scan_tokens(&[w("--note")], &switches(), false);
    assert_eq!((dangling.values[1].clone(), dangling.flag_words), (None, 1));
}

#[test]
fn scan_lead_only_switches() {
    let s = scan_tokens(&[w("-v"), w("hello"), w("-v")], &switches(), true);
    assert_eq!(s.words, vec!["hello", "-v"]);
    assert_eq!(s.flags, vec![true, false]);
    assert_eq!(s.flag_words, 1);
    let none = scan_tokens(&[w("a"), w("b")], &Vec::new(), false);
    assert_eq!(none.words, vec!["a", "b"]);
    assert!(none.flags.is_empty());
}

#[test]
fn scan_field_builders() {
    let tokens = vec![w("x"), ArgToken::Element(Seg::Mention(Uin(5), 1)), ArgToken::Element(Seg::Mention(Uin(6), 2))];
    let mut consumed = vec![false; 3];
    assert_eq!(take_mention(&tokens, &mut consumed), Some(Uin(5)));
    assert_eq!(consumed, vec![false, true, false]);
    assert_eq!(at_or_id(&tokens, &mut consumed, Some("7")), Some(Uin(6)));
    assert_eq!(at_or_id(&tokens, &mut consumed, Some("@123")), Some(Uin(123)));
    assert_eq!(at_or_id(&tokens, &mut consumed, Some("abc")), None);
    assert_eq!(at_or_id(&tokens, &mut consumed, None), None);
    assert!(matches!(required_arg::<i64>("amount", Some("10")), Ok(10)));
    match required_arg::<i64>("amount", Some("x")) {
        Err(ArgError::Parse { field, value, expected }) => assert_eq!((field, value.as_str(), expected), ("amount", "x", "int")),
        _ => panic!("expected a parse error"),
    }
    assert!(matches!(required_arg::<i64>("amount", None), Err(ArgError::Missing("amount"))));
    assert!(matches!(optional_arg::<u8>("n", None), Ok(None)));
    assert!(matches!(optional_arg::<u8>("n", Some("300")), Err(ArgError::Parse { .. })));
    assert!(matches!(defaulted_arg::<i32>("n", None, "5"), Ok(5)));
    assert!(matches!(defaulted_arg::<i32>("n", Some("-2"), "5"), Ok(-2)));
    let words = vec!["a".to_string(), "b".to_string(), "c".to_string()];
    assert_eq!(rest_words(&words, 1), "b c");
    assert_eq!(rest_words(&words, 3), "");
    assert_eq!(raw_rest("-v  hello \n world", 1, 0), "hello \n world");
}

#[test]
fn arg_enum_names_ignore_case() {
    let names = vec!["red".to_string(), "r".to_string(), "Green".to_string()];
    assert_eq!(arg_enum_index("RED", &names), Some(0));
    assert_eq!(arg_enum_index("R", &names), Some(1));
    assert_eq!(arg_enum_index("green", &names), Some(2));
    assert_eq!(arg_enum_index("blue", &names), None);
}
