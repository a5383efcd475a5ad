use nagisa_core::ids::Uin;
use nagisa_core::session::{confirm_step, parse_input, text_step, ConfirmStep, ParseInput, WaitFlow};

#[test]
fn confirm_yes_no_and_reprompt() {
    let who = Uin(1);
    assert!(matches!(confirm_step(Some((who, " YES ")), who, "yes", "no"), ConfirmStep::Done(true)));
    assert!(matches!(confirm_step(Some((who, "No")), who, " Yes", "NO "), ConfirmStep::Done(false)));
    assert!(matches!(confirm_step(Some((Uin(2), "yes")), who, "yes", "no"), ConfirmStep::Continue));
    assert!(matches!(confirm_step(None, who, "yes", "no"), ConfirmStep::Continue));
    match confirm_step(Some((who, "maybe")), who, " Y ", "N") {
        ConfirmStep::Reprompt(p) => assert_eq!(p, "请回复「y」或「n」"),
        _ => panic!("expected a reprompt"),
    }
}

#[test]
fn free_text_and_cancel() {
    assert!(matches!(text_step(None, "取消"), WaitFlow::Continue));
    assert!(matches!(text_step(Some("   "), "取消"), WaitFlow::Continue));
    assert!(matches!(text_step(Some(" 取消 "), "取消"), WaitFlow::Cancel));
    assert!(matches!(text_step(Some("QUIT"), " quit "), WaitFlow::Cancel));
    match text_step(Some(" hello "), "取消") {
        WaitFlow::Done(t) => assert_eq!(t, " hello "),
        _ => panic!("expected the text"),
    }
}

#[test]
fn parse_input_trims_and_cancels() {
    assert!(matches!(parse_input(None, "cancel"), ParseInput::Skip));
    assert!(matches!(parse_input(Some("\n"), "cancel"), ParseInput::Skip));
    assert!(matches!(parse_input(Some("Cancel"), "cancel"), ParseInput::Cancel));
    match parse_input(Some(" 12 "), "cancel") {
        ParseInput::Parse(t) => assert_eq!(t, "12"),
        _ => panic!("expected the trimmed text"),
    }
}
