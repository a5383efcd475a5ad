//! Typed named slots: the head of a command (its named regex captures)
//! projected onto typed values, and the payload of a greedy tail slot.
use vstd::prelude::*;
use crate::args::{miss_action_spec, on_parse_miss, ArgError, FromArg, MissAction};
use crate::matcher::{Matcher, ParsedCommand};
use crate::arg_scan::required_arg;
use crate::text::str_eq;
use crate::matcher::{Seg, SegView, segs_view};

verus! {

/// Parses the text of one capture group into a field value.
pub trait SlotValue: Sized {
    /// The human-readable name of the expected type, for errors.
    const SLOT_TYPE_NAME: &'static str;

    /// `r` is what the capture `s` projects to.
    spec fn capture_spec(s: Seq<char>, r: Result<Self, ArgError>) -> bool;

    /// Parses one capture group.
    fn from_capture(s: &str) -> (r: Result<Self, ArgError>)
        ensures
            Self::capture_spec(s@, r);
}

/// Every token type is a slot value: a capture that does not parse is a parse
/// error of the field `<slot>` with the capture as its value.
impl<T: FromArg> SlotValue for T {
    const SLOT_TYPE_NAME: &'static str = T::TYPE_NAME;

    open spec fn capture_spec(s: Seq<char>, r: Result<T, ArgError>) -> bool {
        match r {
            Ok(v) => T::arg_spec(s, Some(v)),
            Err(e) => T::arg_spec(s, None) && (e matches ArgError::Parse { field, value, expected }
                && field@ == "<slot>"@ && value@ == s && expected == T::TYPE_NAME),
        }
    }

    fn from_capture(s: &str) -> (r: Result<T, ArgError>) {
        match T::from_arg(s) {
            Some(v) => Ok(v),
            None => {
                proof {
                    reveal_strlit("<slot>");
                }
                Err(ArgError::Parse { field: "<slot>", value: s.to_owned(), expected: T::TYPE_NAME })
            },
        }
    }
}

/// A struct of typed slots: its command-head matcher, and its projection from
/// the named captures. Implemented for each slot struct by its author.
pub trait FromSlots: Sized {
    /// The matcher of the command head.
    fn matcher() -> Matcher;

    /// The struct from the named captures of a match.
    fn from_slots(caps: &Vec<(String, Option<String>)>) -> Result<Self, ArgError>;

    /// An explicit usage string to reply on a failed projection, if any.
    fn usage() -> Option<&'static str> {
        None
    }
}

/// The typed-slot extractor's payload.
pub struct Slots<T>(pub T);

/// What a projection result becomes: the slots, or what the parse-miss policy
/// does for its error.
pub open spec fn slots_finished<T>(
    projected: Result<T, ArgError>,
    command: Seq<char>,
    usage: Option<&str>,
    is_dev: bool,
    in_message: bool,
    r: Result<Slots<T>, MissAction>,
) -> bool {
    match projected {
        Ok(v) => r == Ok::<Slots<T>, MissAction>(Slots(v)),
        Err(e) => r matches Err(act) && miss_action_spec(command, e, usage, is_dev, in_message, act),
    }
}

impl<T> Slots<T> {
    /// What a projection result becomes: the slots, or what the parse-miss
    /// policy does for its error (the handler is skipped).
    pub fn finish(
        projected: Result<T, ArgError>,
        command: &str,
        usage: Option<&str>,
        is_dev: bool,
        in_message: bool,
    ) -> (r: Result<Slots<T>, MissAction>)
        ensures
            slots_finished(projected, command@, usage, is_dev, in_message, r),
    {
        match projected {
            Ok(v) => Ok(Slots(v)),
            Err(e) => Err(on_parse_miss(command, &e, usage, is_dev, in_message)),
        }
    }
}

impl<T: FromSlots> Slots<T> {
    /// The typed slots of a matched command: the struct's projection of the
    /// named captures becomes the slots; its error yields what the parse-miss
    /// policy does, with the struct's own usage string.
    pub fn from_parsed(parsed: &ParsedCommand, is_dev: bool, in_message: bool) -> (r: Result<Slots<T>, MissAction>)
        ensures
            exists|projected: Result<T, ArgError>, usage: Option<&'static str>|
                call_ensures(T::from_slots, (&parsed.named_captures,), projected) && call_ensures(
                    T::usage,
                    (),
                    usage,
                ) && slots_finished(projected, parsed.command@, usage, is_dev, in_message, r),
    {
        let projected = T::from_slots(&parsed.named_captures);
        let ghost p = projected;
        let usage = T::usage();
        let r = Self::finish(projected, parsed.command.as_str(), usage, is_dev, in_message);
        assert(call_ensures(T::from_slots, (&parsed.named_captures,), p));
        assert(call_ensures(T::usage, (), usage));
        r
    }
}

/// The payload of a greedy tail slot.
pub struct Tail<T>(pub T);

/// Builds a tail payload from the text of the tail capture.
pub trait FromTailText: Sized {
    /// `r` is the payload of the tail text `s`.
    spec fn tail_spec(s: Seq<char>, r: Self) -> bool;

    /// The payload of the tail text `s`.
    fn from_tail_text(s: &str) -> (r: Self)
        ensures
            Self::tail_spec(s@, r);
}

impl FromTailText for String {
    open spec fn tail_spec(s: Seq<char>, r: String) -> bool {
        r@ == s
    }

    fn from_tail_text(s: &str) -> (r: String) {
        s.to_owned()
    }
}

impl<T: FromTailText> FromTailText for Tail<T> {
    open spec fn tail_spec(s: Seq<char>, r: Tail<T>) -> bool {
        T::tail_spec(s, r.0)
    }

    fn from_tail_text(s: &str) -> (r: Tail<T>) {
        Tail(T::from_tail_text(s))
    }
}

impl FromTailText for Vec<Seg> {
    /// No segments for an empty tail; otherwise one text segment.
    open spec fn tail_spec(s: Seq<char>, r: Vec<Seg>) -> bool {
        if s.len() == 0 {
            r@.len() == 0
        } else {
            segs_view(r@) == seq![SegView::Text(s)]
        }
    }

    fn from_tail_text(s: &str) -> (r: Vec<Seg>) {
        let mut v: Vec<Seg> = Vec::new();
        if s.unicode_len() > 0 {
            v.push(Seg::Text(s.to_owned()));
            assert(segs_view(v@) =~= seq![SegView::Text(s@)]);
        }
        v
    }
}

/// The position of the first of the first `n` captures named `name`.
pub open spec fn capture_at(caps: Seq<(String, Option<String>)>, name: Seq<char>, n: int) -> Option<int>
    decreases n,
{
    if n <= 0 {
        None
    } else {
        match capture_at(caps, name, n - 1) {
            Some(k) => Some(k),
            None => if caps[n - 1].0@ == name {
                Some(n - 1)
            } else {
                None
            },
        }
    }
}

/// The text captured under `name`: none when no capture has that name or
/// when its (optional) group did not take part in the match.
pub open spec fn named_capture(caps: Seq<(String, Option<String>)>, name: Seq<char>) -> Option<Seq<char>> {
    match capture_at(caps, name, caps.len() as int) {
        Some(k) => match caps[k].1 {
            Some(s) => Some(s@),
            None => None,
        },
        None => None,
    }
}

proof fn lemma_capture_at_stays(caps: Seq<(String, Option<String>)>, name: Seq<char>, n: int, m: int)
    requires
        0 <= n <= m,
        capture_at(caps, name, n) is Some,
    ensures
        capture_at(caps, name, m) == capture_at(caps, name, n),
    decreases m - n,
{
    if m > n {
        lemma_capture_at_stays(caps, name, n, m - 1);
    }
}

/// The text captured under `name` (see [`named_capture`]).
pub fn capture<'a>(caps: &'a Vec<(String, Option<String>)>, name: &str) -> (r: Option<&'a String>)
    ensures
        match r {
            Some(s) => named_capture(caps@, name@) == Some(s@),
            None => named_capture(caps@, name@) is None,
        },
{
    let mut k: usize = 0;
    while k < caps.len()
        invariant
            k <= caps@.len(),
            capture_at(caps@, name@, k as int) is None,
        decreases caps@.len() - k,
    {
        if str_eq(caps[k].0.as_str(), name) {
            proof {
                assert(capture_at(caps@, name@, k + 1) == Some(k as int));
                lemma_capture_at_stays(caps@, name@, k + 1, caps@.len() as int);
            }
            return match &caps[k].1 {
                Some(s) => Some(s),
                None => None,
            };
        }
        k = k + 1;
    }
    None
}

/// A required single-capture field: a missing capture is `Missing(field)`;
/// a present one is parsed as the slot's value type.
pub fn slot_required<T: SlotValue>(caps: &Vec<(String, Option<String>)>, name: &str, field: &'static str) -> (r: Result<
    T,
    ArgError,
>)
    ensures
        match named_capture(caps@, name@) {
            None => r matches Err(ArgError::Missing(f)) && f@ == field@,
            Some(s) => T::capture_spec(s, r),
        },
{
    match capture(caps, name) {
        None => Err(ArgError::Missing(field)),
        Some(s) => T::from_capture(s.as_str()),
    }
}

/// An optional single-capture field: no capture gives `None`; a present one
/// is parsed as the slot's value type.
pub fn slot_optional<T: SlotValue>(caps: &Vec<(String, Option<String>)>, name: &str) -> (r: Result<Option<T>, ArgError>)
    ensures
        match named_capture(caps@, name@) {
            None => r matches Ok(None),
            Some(s) => match r {
                Ok(Some(v)) => T::capture_spec(s, Ok(v)),
                Ok(None) => false,
                Err(e) => T::capture_spec(s, Err(e)),
            },
        },
{
    match capture(caps, name) {
        None => Ok(None),
        Some(s) => match T::from_capture(s.as_str()) {
            Ok(v) => Ok(Some(v)),
            Err(e) => Err(e),
        },
    }
}

/// A required tail field: the payload of the captured tail, or of the empty
/// text when there is none.
pub fn tail_required<T: FromTailText>(caps: &Vec<(String, Option<String>)>, name: &str) -> (r: T)
    ensures
        T::tail_spec(
            match named_capture(caps@, name@) {
                Some(s) => s,
                None => Seq::empty(),
            },
            r,
        ),
{
    match capture(caps, name) {
        Some(s) => T::from_tail_text(s.as_str()),
        None => {
            proof {
                reveal_strlit("");
            }
            let empty = "";
            assert(empty@ =~= Seq::<char>::empty());
            T::from_tail_text(empty)
        },
    }
}

/// An optional tail field: `None` without a capture or with an empty one,
/// else the payload of the captured tail.
pub fn tail_optional<T: FromTailText>(caps: &Vec<(String, Option<String>)>, name: &str) -> (r: Option<T>)
    ensures
        match named_capture(caps@, name@) {
            Some(s) => if s.len() > 0 {
                r matches Some(v) && T::tail_spec(s, v)
            } else {
                r is None
            },
            None => r is None,
        },
{
    match capture(caps, name) {
        Some(s) => if s.as_str().unicode_len() > 0 {
            Some(T::from_tail_text(s.as_str()))
        } else {
            None
        },
        None => None,
    }
}

/// One element of a tuple field (its group `name`, such as `pair#0`): a
/// missing capture is `Missing(field)`; a present one is parsed as the
/// element type, its failure a parse error naming the field.
pub fn slot_element<T: FromArg>(caps: &Vec<(String, Option<String>)>, name: &str, field: &'static str) -> (r: Result<
    T,
    ArgError,
>)
    ensures
        match named_capture(caps@, name@) {
            None => r matches Err(ArgError::Missing(f)) && f@ == field@,
            Some(s) => match r {
                Ok(v) => T::arg_spec(s, Some(v)),
                Err(e) => T::arg_spec(s, None) && (e matches ArgError::Parse { field: f, value, expected }
                    && f@ == field@ && value@ == s && expected == T::TYPE_NAME),
            },
        },
{
    match capture(caps, name) {
        Some(s) => required_arg(field, Some(s.as_str())),
        None => required_arg(field, None),
    }
}

} // verus!
