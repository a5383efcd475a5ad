use nagisa_core::matcher::Flank;
use nagisa_core::slot_seq::{
    command_words, join, resolve_blocks, slot_argspec, slot_group_names, slot_program, slots_synopsis, Block,
    BlockError, SeqItem, SlotField, SlotSource, DEFAULT_SEP, check_fields, FieldError,
};

fn union(ident: &str, optional: bool, alts: &[&str]) -> SlotField {
    SlotField {
        ident: ident.to_string(),
        name: None,
        desc: None,
        optional,
        src: SlotSource::Union(alts.iter().map(|a| a.to_string()).collect()),
        tuple_len: 0,
    }
}

fn rank_fields() -> Vec<SlotField> {
    vec![union("board", false, &["排行", "金币", "等级", "发言", "签到"]), union("scope", true, &["全局", "全站"])]
}

fn rank_items() -> Vec<SeqItem> {
    vec![
        SeqItem::Lit("查看".to_string()),
        SeqItem::Field("board".to_string()),
        SeqItem::Lit("榜".to_string()),
        SeqItem::Field("scope".to_string()),
    ]
}

fn resolved() -> Vec<Block> {
    match resolve_blocks(&rank_items(), &rank_fields()) {
        Ok(b) => b,
        Err(e) => panic!("{}", e.message()),
    }
}

#[test]
fn slot_seq_command_words_product() {
    let words = command_words(&resolved(), &rank_fields());
    assert_eq!(words, vec!["查看排行榜", "查看金币榜", "查看等级榜", "查看发言榜", "查看签到榜"]);
    let two = vec![union("a", false, &["x", "y"]), union("b", false, &["1", "2", "3"])];
    let blocks = vec![Block::Field(0), Block::Lit("-".to_string()), Block::Field(1)];
    assert_eq!(command_words(&blocks, &two), vec!["x-1", "x-2", "x-3", "y-1", "y-2", "y-3"]);
    let lit_only = vec![Block::Lit("help".to_string())];
    assert!(command_words(&lit_only, &two).is_empty());
    let mut raw = rank_fields();
    raw[0].src = SlotSource::Re("\\d+".to_string());
    assert!(command_words(&resolved(), &raw).is_empty());
}

#[test]
fn slot_seq_synopsis_and_args() {
    assert_eq!(slots_synopsis(&resolved(), &rank_fields()), "查看<board>榜[scope]");
    let mut named = rank_fields();
    named[0].name = Some("榜单".to_string());
    named[0].desc = Some("要看的榜".to_string());
    assert_eq!(slots_synopsis(&resolved(), &named), "查看<榜单>榜[scope]");
    let a = slot_argspec(&named[0]);
    assert_eq!((a.name.as_str(), a.required, a.desc.as_str()), ("榜单", true, "排行/金币/等级/发言/签到 · 要看的榜"));
    let b = slot_argspec(&named[1]);
    assert_eq!((b.name.as_str(), b.required, b.desc.as_str()), ("scope", false, "可选 · 全局/全站"));
    let tail = SlotField { ident: "rest".to_string(), name: None, desc: Some(String::new()), optional: false, src: SlotSource::Tail, tuple_len: 0 };
    assert_eq!(slot_argspec(&tail).desc, "");
}

#[test]
fn slot_seq_program() {
    let p = slot_program(&resolved(), &rank_fields(), DEFAULT_SEP);
    assert_eq!(p.len(), 4);
    assert_eq!(p[0].src, "查看");
    assert!(p[0].names.is_empty() && !p[0].optional);
    assert_eq!(p[1].src, "\\s*(排行|金币|等级|发言|签到)");
    assert_eq!(p[1].names, vec!["board".to_string()]);
    assert_eq!(p[2].src, "\\s*榜");
    assert_eq!(p[3].src, "\\s*(全局|全站)");
    assert!(p[3].optional);
    assert!(matches!(p[3].flank, Flank::Whole));
    let fields = vec![
        union("op", false, &["a.b", "c"]),
        SlotField { ident: "pair".to_string(), name: None, desc: None, optional: false, src: SlotSource::Re("(\\d+)x(\\d+)".to_string()), tuple_len: 2 },
        SlotField { ident: "rest".to_string(), name: None, desc: None, optional: true, src: SlotSource::Tail, tuple_len: 0 },
    ];
    let blocks = vec![Block::Lit("go+".to_string()), Block::Field(0), Block::Field(1), Block::Field(2)];
    let p = slot_program(&blocks, &fields, " ");
    assert_eq!(p[0].src, "go\\+");
    assert_eq!(p[1].src, " (a\\.b|c)");
    assert_eq!(p[2].names, vec!["pair#0".to_string(), "pair#1".to_string()]);
    assert_eq!(p[3].src, " ([\\s\\S]*)");
    assert_eq!(slot_group_names(&fields[1]), vec!["pair#0", "pair#1"]);
    assert_eq!(join(&vec!["a".to_string(), "b".to_string(), "c".to_string()], ", "), "a, b, c");
    assert_eq!(join(&Vec::new(), ", "), "");
}

#[test]
fn slot_seq_resolution_errors() {
    let fields = rank_fields();
    let none = resolve_blocks(&Vec::new(), &fields).ok().expect("declaration order");
    assert_eq!(none.len(), 2);
    assert!(matches!(none[0], Block::Field(0)) && matches!(none[1], Block::Field(1)));
    let unknown = vec![SeqItem::Field("nope".to_string())];
    match resolve_blocks(&unknown, &fields) {
        Err(e @ BlockError::UnknownField(_)) => assert_eq!(e.message(), "#[slots(..)] references unknown field `nope`"),
        _ => panic!("expected an unknown field"),
    }
    let twice = vec![SeqItem::Field("board".to_string()), SeqItem::Field("board".to_string())];
    match resolve_blocks(&twice, &fields) {
        Err(e @ BlockError::RepeatedField(_)) => assert_eq!(e.message(), "#[slots(..)] references field `board` more than once"),
        _ => panic!("expected a repeated field"),
    }
    let missing = vec![SeqItem::Lit("x".to_string()), SeqItem::Field("scope".to_string())];
    match resolve_blocks(&missing, &fields) {
        Err(e @ BlockError::UnplacedField(_)) => assert_eq!(e.message(), "field `board` is not placed in #[slots(..)] sequence"),
        _ => panic!("expected an unplaced field"),
    }
}

#[test]
fn slot_seq_field_checks() {
    assert!(check_fields(&rank_fields()).is_ok());
    let mut bad = rank_fields();
    bad.push(SlotField { ident: "rest".to_string(), name: None, desc: None, optional: false, src: SlotSource::Tail, tuple_len: 2 });
    bad.push(union("board", false, &["x"]));
    match check_fields(&bad) {
        Err(e @ FieldError::TailTuple(_)) => assert_eq!(e.message(), "#[slot(tail)] cannot be a tuple"),
        _ => panic!("expected a tail tuple"),
    }
    bad.remove(2);
    match check_fields(&bad) {
        Err(FieldError::DuplicateSlot(n)) => assert_eq!(n, "board"),
        _ => panic!("expected a duplicate"),
    }
}
