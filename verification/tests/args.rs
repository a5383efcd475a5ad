use nagisa_core::args::{
    on_parse_miss, seg_as_at, skip_words, split_words, tokenize_segments, usage_hint, ArgError, ArgToken, Args,
    FromArg, ParseArgs,
};
use nagisa_core::matcher::ParsedCommand;
use nagisa_core::ids::Uin;
use nagisa_core::slots::{
    capture, slot_element, slot_optional, slot_required, tail_optional, tail_required, FromSlots, FromTailText, SlotValue,
    Slots, Tail,
};
use nagisa_core::matcher::Matcher;
use nagisa_core::matcher::Seg;

#[test]
fn skip_words_keeps_inner_spacing() {
    assert_eq!(skip_words("  say  hello   world\nbye", 1), "hello   world\nbye");
    assert_eq!(skip_words("a b c", 0), "a b c");
    assert_eq!(skip_words("   a b", 0), "a b");
    assert_eq!(skip_words("a b c", 3), "");
    assert_eq!(skip_words("a b c", 10), "");
    assert_eq!(skip_words("", 1), "");
}

#[test]
fn skip_words_unicode_white_space() {
    assert_eq!(skip_words("命令\u{3000}参数 一", 1), "参数 一");
    assert_eq!(skip_words("x\u{a0}y", 1), "y");
}

#[test]
fn from_arg_integers() {
    assert_eq!(i64::from_arg("42"), Some(42));
    assert_eq!(i64::from_arg("-42"), Some(-42));
    assert_eq!(i64::from_arg("+7"), Some(7));
    assert_eq!(i64::from_arg("-9223372036854775808"), Some(i64::MIN));
    assert_eq!(i64::from_arg("9223372036854775808"), None);
    assert_eq!(i64::from_arg(" 1"), None);
    assert_eq!(i64::from_arg(""), None);
    assert_eq!(i64::from_arg("-"), None);
    assert_eq!(i8::from_arg("128"), None);
    assert_eq!(i8::from_arg("-128"), Some(-128));
    assert_eq!(u8::from_arg("255"), Some(255));
    assert_eq!(u8::from_arg("256"), None);
    assert_eq!(u32::from_arg("-0"), None);
    assert_eq!(u64::from_arg("18446744073709551615"), Some(u64::MAX));
    assert_eq!(u64::from_arg("99999999999999999999999999999"), None);
    assert_eq!(u16::from_arg("+65535"), Some(65535));
    assert_eq!(i32::from_arg("1x"), None);
    assert_eq!(i16::from_arg("-32768"), Some(-32768));
}

#[test]
fn from_arg_bool_string_uin() {
    assert_eq!(bool::from_arg("true"), Some(true));
    assert_eq!(bool::from_arg("false"), Some(false));
    assert_eq!(bool::from_arg("True"), None);
    assert_eq!(String::from_arg(" x "), Some(" x ".to_string()));
    assert_eq!(Uin::from_arg("@123"), Some(Uin(123)));
    assert_eq!(Uin::from_arg("@@123"), Some(Uin(123)));
    assert_eq!(Uin::from_arg("123"), Some(Uin(123)));
    assert_eq!(Uin::from_arg("@x"), None);
    assert_eq!(<Uin as FromArg>::TYPE_NAME, "uin");
    assert_eq!(<i64 as FromArg>::TYPE_NAME, "int");
}

#[test]
fn arg_error_messages() {
    assert_eq!(ArgError::Missing("amount").message(), "missing required argument `amount`");
    let e = ArgError::Parse { field: "amount", value: "x\"y".to_string(), expected: "int" };
    assert_eq!(e.message(), "argument `amount`: cannot parse \"x\\\"y\" as int");
    assert_eq!(
        usage_hint("transfer", &ArgError::Parse { field: "amount", value: "x".to_string(), expected: "int" }),
        "用法错误: 命令 `transfer` — argument `amount`: cannot parse \"x\" as int"
    );
}

#[test]
fn parse_miss_policy() {
    let e = ArgError::Missing("who");
    let a = on_parse_miss("hug", &e, Some("用法: /hug @人"), false, true);
    assert_eq!(a.reply, Some("用法: /hug @人".to_string()));
    assert_eq!(a.warn, None);
    let a = on_parse_miss("hug", &e, None, true, true);
    assert_eq!(a.reply, Some("用法错误: 命令 `hug` — missing required argument `who`".to_string()));
    assert_eq!(a.warn, a.reply);
    let a = on_parse_miss("hug", &e, None, true, false);
    assert_eq!(a.reply, None);
    assert!(a.warn.is_some());
    let a = on_parse_miss("hug", &e, None, false, true);
    assert_eq!(a.reply, None);
    assert_eq!(a.warn, None);
}

#[test]
fn slot_values_and_tails() {
    assert_eq!(<i64 as SlotValue>::from_capture("12").ok(), Some(12));
    match <u8 as SlotValue>::from_capture("300") {
        Err(ArgError::Parse { field, value, expected }) => {
            assert_eq!(field, "<slot>");
            assert_eq!(value, "300");
            assert_eq!(expected, "uint");
        }
        _ => panic!("expected a parse error"),
    }
    assert_eq!(String::from_tail_text("rest of it"), "rest of it");
    let t: Tail<String> = Tail::from_tail_text("x");
    assert_eq!(t.0, "x");
    let v: Vec<Seg> = Vec::from_tail_text("");
    assert!(v.is_empty());
    let v: Vec<Seg> = Vec::from_tail_text("hi");
    assert_eq!(v.len(), 1);
    assert!(matches!(&v[0], Seg::Text(s) if s == "hi"));
}

#[test]
fn split_words_on_white_space() {
    assert_eq!(split_words("  a  bc\td\u{3000}é "), vec!["a", "bc", "d", "é"]);
    assert!(split_words("").is_empty());
    assert!(split_words(" \n ").is_empty());
    assert_eq!(split_words("x"), vec!["x"]);
}

fn word(t: &ArgToken) -> Option<&str> {
    match t {
        ArgToken::Word(w) => Some(w.as_str()),
        ArgToken::Element(_) => None,
    }
}

#[test]
fn tokenize_keeps_elements_in_order() {
    let segs = vec![
        Seg::Text(" pay  ".to_string()),
        Seg::Mention(Uin(7), 1),
        Seg::Text("10 coins".to_string()),
        Seg::Other(3),
    ];
    let toks = tokenize_segments(&segs);
    assert_eq!(toks.len(), 5);
    assert_eq!(word(&toks[0]), Some("pay"));
    match &toks[1] {
        ArgToken::Element(s) => assert_eq!(seg_as_at(s), Some(Uin(7))),
        _ => panic!("expected the mention"),
    }
    assert_eq!(word(&toks[2]), Some("10"));
    assert_eq!(word(&toks[3]), Some("coins"));
    match &toks[4] {
        ArgToken::Element(s) => assert_eq!(seg_as_at(s), None),
        _ => panic!("expected the element"),
    }
    assert!(tokenize_segments(&[]).is_empty());
}

struct Amount(i64);

impl ParseArgs for Amount {
    fn parse_args(tokens: &[ArgToken], _raw_text: &str) -> Result<Self, ArgError> {
        match tokens.first() {
            None => Err(ArgError::Missing("amount")),
            Some(ArgToken::Word(w)) => match i64::from_arg(w) {
                Some(v) => Ok(Amount(v)),
                None => Err(ArgError::Parse { field: "amount", value: w.clone(), expected: i64::TYPE_NAME }),
            },
            Some(ArgToken::Element(_)) => Err(ArgError::Missing("amount")),
        }
    }
}

fn parsed(args: Vec<Seg>, text: &str) -> ParsedCommand {
    ParsedCommand {
        command: "transfer".to_string(),
        args,
        args_text: text.to_string(),
        captures: Vec::new(),
        named_captures: Vec::new(),
    }
}

#[test]
fn typed_args_from_parsed() {
    let ok = parsed(vec![Seg::Text(" 42 ".to_string())], " 42 ");
    match Args::<Amount>::from_parsed(&ok, None, false, true) {
        Ok(Args(a)) => assert_eq!(a.0, 42),
        Err(_) => panic!("expected a parse"),
    }
    let bad = parsed(vec![Seg::Text("x".to_string())], "x");
    match Args::<Amount>::from_parsed(&bad, None, true, true) {
        Err(act) => {
            let hint = "用法错误: 命令 `transfer` — argument `amount`: cannot parse \"x\" as int";
            assert_eq!(act.warn.as_deref(), Some(hint));
            assert_eq!(act.reply.as_deref(), Some(hint));
        }
        Ok(_) => panic!("expected a miss"),
    }
    match Args::<Amount>::from_parsed(&parsed(Vec::new(), ""), Some("usage: transfer <n>"), false, true) {
        Err(act) => {
            assert_eq!(act.reply.as_deref(), Some("usage: transfer <n>"));
            assert!(act.warn.is_none());
        }
        Ok(_) => panic!("expected a miss"),
    }
}

#[test]
fn typed_args_finish() {
    match Args::finish(Ok(5u8), "c", None, true, true) {
        Ok(Args(v)) => assert_eq!(v, 5),
        Err(_) => panic!("expected the value"),
    }
    match Args::<u8>::finish(Err(ArgError::Missing("n")), "c", None, false, true) {
        Err(act) => assert!(act.reply.is_none() && act.warn.is_none()),
        Ok(_) => panic!("expected a miss"),
    }
    match Args::<u8>::finish(Err(ArgError::Missing("n")), "c", None, true, false) {
        Err(act) => {
            assert_eq!(act.warn.as_deref(), Some("用法错误: 命令 `c` — missing required argument `n`"));
            assert!(act.reply.is_none());
        }
        Ok(_) => panic!("expected a miss"),
    }
}

struct Board(String);

impl FromSlots for Board {
    fn matcher() -> Matcher {
        Matcher::command(&["board".to_string()])
    }

    fn from_slots(caps: &Vec<(String, Option<String>)>) -> Result<Self, ArgError> {
        match caps.iter().find(|(k, _)| k == "board") {
            Some((_, Some(v))) => Ok(Board(v.clone())),
            _ => Err(ArgError::Missing("board")),
        }
    }

    fn usage() -> Option<&'static str> {
        Some("用法: 查看<榜单>榜")
    }
}

#[test]
fn typed_slots_from_parsed() {
    let mut p = parsed(Vec::new(), "");
    p.named_captures = vec![("board".to_string(), Some("金币".to_string()))];
    match Slots::<Board>::from_parsed(&p, false, true) {
        Ok(Slots(b)) => assert_eq!(b.0, "金币"),
        Err(_) => panic!("expected the slots"),
    }
    p.named_captures = Vec::new();
    match Slots::<Board>::from_parsed(&p, false, true) {
        Err(act) => assert_eq!(act.reply.as_deref(), Some("用法: 查看<榜单>榜")),
        Ok(_) => panic!("expected a miss"),
    }
    match Slots::<u8>::finish(Err(ArgError::Missing("n")), "c", None, false, true) {
        Err(act) => assert!(act.reply.is_none() && act.warn.is_none()),
        Ok(_) => panic!("expected a miss"),
    }
    let _ = Board::matcher();
}

#[test]
fn skip_words_composes() {
    let text = "  a b\tc  d\n e ";
    for a in 0..5 {
        for b in 0..5 {
            assert_eq!(skip_words(&skip_words(text, a), b), skip_words(text, a + b));
        }
        let r = skip_words(text, a);
        assert!(text.ends_with(r.as_str()));
        assert!(r.is_empty() || !r.starts_with(char::is_whitespace));
    }
}

#[test]
fn slot_projection_helpers() {
    let caps = vec![
        ("board".to_string(), Some("金币".to_string())),
        ("scope".to_string(), None),
        ("n".to_string(), Some("x".to_string())),
        ("pair#0".to_string(), Some("3".to_string())),
        ("rest".to_string(), Some(String::new())),
    ];
    assert_eq!(capture(&caps, "board").map(|s| s.as_str()), Some("金币"));
    assert!(capture(&caps, "scope").is_none());
    assert!(capture(&caps, "nope").is_none());
    assert!(matches!(slot_required::<String>(&caps, "board", "board"), Ok(ref s) if s == "金币"));
    assert!(matches!(slot_required::<String>(&caps, "scope", "scope"), Err(ArgError::Missing("scope"))));
    match slot_required::<u8>(&caps, "n", "n") {
        Err(ArgError::Parse { field, value, expected }) => assert_eq!((field, value.as_str(), expected), ("<slot>", "x", "uint")),
        _ => panic!("expected a parse error"),
    }
    assert!(matches!(slot_optional::<String>(&caps, "scope"), Ok(None)));
    assert!(matches!(slot_optional::<u8>(&caps, "pair#0"), Ok(Some(3))));
    assert!(matches!(slot_element::<u8>(&caps, "pair#0", "pair"), Ok(3)));
    assert!(matches!(slot_element::<u8>(&caps, "pair#1", "pair"), Err(ArgError::Missing("pair"))));
    assert!(matches!(slot_element::<u8>(&caps, "n", "pair"), Err(ArgError::Parse { field: "pair", .. })));
    assert_eq!(tail_required::<String>(&caps, "rest"), "");
    assert_eq!(tail_required::<String>(&caps, "board"), "金币");
    assert_eq!(tail_required::<String>(&caps, "missing"), "");
    assert!(tail_optional::<String>(&caps, "rest").is_none());
    assert_eq!(tail_optional::<String>(&caps, "board"), Some("金币".to_string()));
}
