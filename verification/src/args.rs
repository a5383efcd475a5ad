//! Declarative command arguments: text splitting on Unicode white space, the
//! per-type token parsers, the parse errors and the policy for a failed parse.
use vstd::prelude::*;
use crate::ids::Uin;
use crate::matcher::{ParsedCommand, Seg, SegView, seg_view, segs_view};
use crate::text::{is_white_space, is_ws, push_char, skip_ws, trim_ws_start};

verus! {

/// The position of the first white space in `s`, if any.
pub open spec fn first_ws(s: Seq<char>) -> Option<int> {
    if exists|p: int| 0 <= p < s.len() && is_ws(s[p]) {
        Some(choose|p: int| 0 <= p < s.len() && is_ws(s[p]) && forall|q: int| 0 <= q < p ==> !is_ws(s[q]))
    } else {
        None
    }
}

/// What is left of `rest` after `k` more words: each step skips to the first
/// white space and the white space after it; with no white space left, nothing.
#[verifier::opaque]
pub open spec fn skip_from(rest: Seq<char>, k: nat) -> Seq<char>
    decreases k,
{
    if k == 0 {
        rest
    } else {
        match first_ws(rest) {
            Some(p) => if 0 <= p <= rest.len() {
                skip_from(trim_ws_start(rest.subrange(p, rest.len() as int)), (k - 1) as nat)
            } else {
                Seq::empty()
            },
            None => Seq::empty(),
        }
    }
}

/// The text of `s` after its first `k` words, with inner spacing kept.
pub open spec fn skip_words_spec(s: Seq<char>, k: nat) -> Seq<char> {
    skip_from(trim_ws_start(s), k)
}

/// `s` has no leading white space.
pub open spec fn trimmed_start(s: Seq<char>) -> bool {
    s.len() == 0 || !is_ws(s[0])
}

/// `x` is a suffix of `t`.
pub open spec fn is_suffix(x: Seq<char>, t: Seq<char>) -> bool {
    x.len() <= t.len() && t.subrange(t.len() - x.len(), t.len() as int) == x
}

proof fn lemma_suffix_trans(x: Seq<char>, y: Seq<char>, t: Seq<char>)
    requires
        is_suffix(x, y),
        is_suffix(y, t),
    ensures
        is_suffix(x, t),
{
    assert(t.subrange(t.len() - x.len(), t.len() as int) =~= y.subrange(y.len() - x.len(), y.len() as int));
}

proof fn lemma_suffix_from(t: Seq<char>, p: int)
    requires
        0 <= p <= t.len(),
    ensures
        is_suffix(t.subrange(p, t.len() as int), t),
{
    assert(t.subrange(t.len() - (t.len() - p), t.len() as int) =~= t.subrange(p, t.len() as int));
}

proof fn lemma_trim_props(s: Seq<char>)
    ensures
        trimmed_start(trim_ws_start(s)),
        is_suffix(trim_ws_start(s), s),
        trimmed_start(s) ==> trim_ws_start(s) == s,
    decreases s.len(),
{
    if s.len() > 0 && is_ws(s[0]) {
        let r = s.subrange(1, s.len() as int);
        lemma_trim_props(r);
        lemma_suffix_from(s, 1);
        lemma_suffix_trans(trim_ws_start(r), r, s);
    } else {
        assert(s.subrange(0, s.len() as int) =~= s);
    }
}

proof fn lemma_skip_empty(k: nat)
    ensures
        skip_from(Seq::<char>::empty(), k) == Seq::<char>::empty(),
{
    reveal(skip_from);
    if k > 0 {
        assert(!(exists|p: int| 0 <= p < Seq::<char>::empty().len() && is_ws(Seq::<char>::empty()[p])));
    }
}

proof fn lemma_skip_from_props(r: Seq<char>, k: nat)
    requires
        trimmed_start(r),
    ensures
        trimmed_start(skip_from(r, k)),
        is_suffix(skip_from(r, k), r),
    decreases k,
{
    reveal(skip_from);
    if k == 0 {
        assert(r.subrange(0, r.len() as int) =~= r);
    } else {
        match first_ws(r) {
            Some(p) => if 0 <= p <= r.len() {
                let s = r.subrange(p, r.len() as int);
                lemma_trim_props(s);
                lemma_skip_from_props(trim_ws_start(s), (k - 1) as nat);
                lemma_suffix_from(r, p);
                lemma_suffix_trans(trim_ws_start(s), s, r);
                lemma_suffix_trans(skip_from(trim_ws_start(s), (k - 1) as nat), trim_ws_start(s), r);
            } else {
                assert(r.subrange(r.len() as int, r.len() as int) =~= Seq::<char>::empty());
            },
            None => {
                assert(r.subrange(r.len() as int, r.len() as int) =~= Seq::<char>::empty());
            },
        }
    }
}

proof fn lemma_skip_compose(r: Seq<char>, a: nat, b: nat)
    requires
        trimmed_start(r),
    ensures
        skip_from(skip_from(r, a), b) == skip_from(r, a + b),
    decreases a,
{
    reveal(skip_from);
    if a == 0 {
    } else {
        match first_ws(r) {
            Some(p) => if 0 <= p <= r.len() {
                let s = trim_ws_start(r.subrange(p, r.len() as int));
                lemma_trim_props(r.subrange(p, r.len() as int));
                lemma_skip_compose(s, (a - 1) as nat, b);
                assert((a - 1) as nat + b == (a + b - 1) as nat);
            } else {
                lemma_skip_empty(b);
            },
            None => {
                lemma_skip_empty(b);
            },
        }
    }
}

/// Skipping words composes: skipping `a` words and then `b` more is skipping
/// `a + b`; what is left is a suffix of the text that starts with no white
/// space.
pub proof fn law_skip_words(text: Seq<char>, a: nat, b: nat)
    ensures
        skip_words_spec(skip_words_spec(text, a), b) == skip_words_spec(text, a + b),
        is_suffix(skip_words_spec(text, a), text),
        trimmed_start(skip_words_spec(text, a)),
{
    let r = trim_ws_start(text);
    lemma_trim_props(text);
    lemma_skip_from_props(r, a);
    lemma_trim_props(skip_from(r, a));
    lemma_skip_compose(r, a, b);
    lemma_suffix_trans(skip_from(r, a), r, text);
}

proof fn lemma_first_ws(s: Seq<char>, p: int)
    requires
        0 <= p <= s.len(),
        forall|q: int| 0 <= q < p ==> !is_ws(s[q]),
        p < s.len() ==> is_ws(s[p]),
    ensures
        p < s.len() ==> first_ws(s) == Some(p),
        p == s.len() ==> first_ws(s) is None,
{
    if p < s.len() {
        let c = choose|c: int| 0 <= c < s.len() && is_ws(s[c]) && forall|q: int| 0 <= q < c ==> !is_ws(s[q]);
        if c < p {
            assert(!is_ws(s[c]));
        }
        if p < c {
            assert(!is_ws(s[p]));
        }
    }
}

proof fn lemma_skip_step(rest: Seq<char>, k: nat, p: int)
    requires
        k > 0,
        0 <= p <= rest.len(),
        forall|q: int| 0 <= q < p ==> !is_ws(rest[q]),
        p < rest.len() ==> is_ws(rest[p]),
    ensures
        p < rest.len() ==> skip_from(rest, k) == skip_from(trim_ws_start(rest.subrange(p, rest.len() as int)), (k - 1) as nat),
        p == rest.len() ==> skip_from(rest, k) == Seq::<char>::empty(),
{
    reveal(skip_from);
    lemma_first_ws(rest, p);
}

proof fn lemma_skip_zero(rest: Seq<char>)
    ensures
        skip_from(rest, 0) == rest,
{
    reveal(skip_from);
}

/// Skips the first `k` white-space-separated words of `text` and returns the
/// rest verbatim (inner spacing and line breaks kept; only the separating white
/// space before the first remaining character is dropped).
pub fn skip_words(text: &str, k: usize) -> (r: String)
    ensures
        r@ == skip_words_spec(text@, k as nat),
{
    let n = text.unicode_len();
    let mut st = skip_ws(text, 0);
    assert(text@.subrange(0, n as int) == text@);
    let mut i: usize = 0;
    while i < k
        invariant
            n == text@.len(),
            st <= n,
            i <= k,
            skip_words_spec(text@, k as nat) == skip_from(text@.subrange(st as int, n as int), (k - i) as nat),
        decreases k - i,
    {
        let ghost rest = text@.subrange(st as int, n as int);
        let mut p = st;
        while p < n && !is_white_space(text.get_char(p))
            invariant
                n == text@.len(),
                st <= p <= n,
                forall|j: int| st <= j < p ==> !is_ws(text@[j]),
            decreases n - p,
        {
            p = p + 1;
        }
        proof {
            lemma_skip_step(rest, (k - i) as nat, p - st);
        }
        if p == n {
            return String::new();
        }
        let q = skip_ws(text, p);
        assert(rest.subrange(p - st, rest.len() as int) == text@.subrange(p as int, n as int));
        st = q;
        i = i + 1;
    }
    proof {
        lemma_skip_zero(text@.subrange(st as int, n as int));
    }
    text.substring_char(st, n).to_owned()
}

/// A failed argument parse.
pub enum ArgError {
    /// The required argument `field` is missing.
    Missing(&'static str),
    /// The value `value` of `field` does not parse as `expected`.
    Parse { field: &'static str, value: String, expected: &'static str },
}

/// What `format!("{s:?}")` writes for a string: `s` quoted, with std's escapes.
pub uninterp spec fn debug_quoted(s: Seq<char>) -> Seq<char>;

/// Quotes `s` as `{:?}` does (std's `Debug` for `str`). The result is named
/// `debug_quoted(s)`; its escaping rules are std's and are not restated here.
#[verifier::external_body]
pub(crate) fn quote_debug(s: &str) -> (r: String)
    ensures
        r@ == debug_quoted(s@),
{
    format!("{s:?}")
}

/// The human-readable text of an argument error.
pub open spec fn arg_error_text(e: ArgError) -> Seq<char> {
    match e {
        ArgError::Missing(field) => "missing required argument `"@ + field@ + "`"@,
        ArgError::Parse { field, value, expected } => "argument `"@ + field@ + "`: cannot parse "@
            + debug_quoted(value@) + " as "@ + expected@,
    }
}

impl ArgError {
    /// The human-readable text of this error.
    pub fn message(&self) -> (r: String)
        ensures
            r@ == arg_error_text(*self),
    {
        match self {
            ArgError::Missing(field) => {
                let mut s = String::from_str("missing required argument `");
                s.append(field);
                s.append("`");
                s
            },
            ArgError::Parse { field, value, expected } => {
                let mut s = String::from_str("argument `");
                s.append(field);
                s.append("`: cannot parse ");
                let q = quote_debug(value.as_str());
                s.append(q.as_str());
                s.append(" as ");
                s.append(expected);
                s
            },
        }
    }
}

/// The usage hint for a failed parse of `command`.
pub open spec fn usage_hint_spec(command: Seq<char>, err: ArgError) -> Seq<char> {
    "用法错误: 命令 `"@ + command + "` — "@ + arg_error_text(err)
}

/// Builds the usage hint for a failed parse, such as
/// ``用法错误: 命令 `transfer` — argument `amount`: cannot parse "x" as int``.
pub fn usage_hint(command: &str, err: &ArgError) -> (r: String)
    ensures
        r@ == usage_hint_spec(command@, *err),
{
    let mut s = String::from_str("用法错误: 命令 `");
    s.append(command);
    s.append("` — ");
    let m = err.message();
    s.append(m.as_str());
    s
}

/// What to do after a failed parse: the text to reply in the conversation (if
/// any), and the hint to log as a warning (if any; otherwise a debug line).
pub struct MissAction {
    pub reply: Option<String>,
    pub warn: Option<String>,
}

/// `a` is what the parse-miss policy does for a failed parse of `command`.
pub open spec fn miss_action_spec(
    command: Seq<char>,
    err: ArgError,
    usage: Option<&str>,
    is_dev: bool,
    in_message: bool,
    a: MissAction,
) -> bool {
    match usage {
        Some(u) => a.warn is None && match a.reply {
            Some(r) => in_message && r@ == u@,
            None => !in_message,
        },
        None => if is_dev {
            a.warn matches Some(w) && w@ == usage_hint_spec(command, err) && match a.reply {
                Some(r) => in_message && r@ == usage_hint_spec(command, err),
                None => !in_message,
            }
        } else {
            a.warn is None && a.reply is None
        },
    }
}

/// The parse-miss policy shared by typed arguments and slots: an explicit usage
/// string is always replied; otherwise in development the auto hint is logged
/// as a warning and replied; in production the miss is quiet. Replies go only
/// where the event is a message.
pub fn on_parse_miss(command: &str, err: &ArgError, usage: Option<&str>, is_dev: bool, in_message: bool) -> (a: MissAction)
    ensures
        miss_action_spec(command@, *err, usage, is_dev, in_message, a),
{
    match usage {
        Some(u) => MissAction { reply: if in_message { Some(u.to_owned()) } else { None }, warn: None },
        None => {
            if is_dev {
                let hint = usage_hint(command, err);
                let reply = if in_message { Some(hint.clone()) } else { None };
                MissAction { reply, warn: Some(hint) }
            } else {
                MissAction { reply: None, warn: None }
            }
        },
    }
}

/// Whether `c` is an ASCII decimal digit.
pub open spec fn is_digit(c: char) -> bool {
    '0' <= c <= '9'
}

/// The value of a string of decimal digits.
pub open spec fn digits_value(s: Seq<char>) -> int
    decreases s.len(),
{
    if s.len() == 0 {
        0
    } else {
        digits_value(s.drop_last()) * 10 + (s.last() as int - 48)
    }
}

/// The integer a token spells: an optional `+` (or `-`, for signed types) and
/// then one or more decimal digits, nothing else.
pub open spec fn int_value(s: Seq<char>, signed: bool) -> Option<int> {
    if all_digits(digits_of(s, signed)) {
        Some(
            if negative(s, signed) {
                -digits_value(digits_of(s, signed))
            } else {
                digits_value(digits_of(s, signed))
            },
        )
    } else {
        None
    }
}

/// The token starts with a minus sign that the type accepts.
pub open spec fn negative(s: Seq<char>, signed: bool) -> bool {
    s.len() > 0 && s[0] == '-' && signed
}

/// The token after its sign, if it has one.
pub open spec fn digits_of(s: Seq<char>, signed: bool) -> Seq<char> {
    if s.len() > 0 && (s[0] == '+' || negative(s, signed)) {
        s.subrange(1, s.len() as int)
    } else {
        s
    }
}

/// `d` is one or more decimal digits.
pub open spec fn all_digits(d: Seq<char>) -> bool {
    d.len() > 0 && forall|i: int| 0 <= i < d.len() ==> #[trigger] is_digit(d[i])
}

/// `int_value`, kept only when it lies in `[lo, hi]`.
pub open spec fn int_in(s: Seq<char>, signed: bool, lo: int, hi: int) -> Option<int> {
    match int_value(s, signed) {
        Some(v) => if lo <= v <= hi { Some(v) } else { None },
        None => None,
    }
}

proof fn lemma_digits_grow(s: Seq<char>, c: char)
    requires
        forall|i: int| 0 <= i < s.len() ==> is_digit(s[i]),
        is_digit(c),
    ensures
        digits_value(s.push(c)) == digits_value(s) * 10 + (c as int - 48),
        digits_value(s) >= 0,
    decreases s.len(),
{
    assert(s.push(c).drop_last() == s);
    if s.len() > 0 {
        lemma_digits_grow(s.drop_last(), s.last());
        assert(s.drop_last().push(s.last()) == s);
    }
}

/// Parses a decimal integer token in `[lo, hi]` (std's `from_str` for the
/// integer types: optional sign, digits only, in range).
fn parse_int(s: &str, signed: bool, lo: i128, hi: i128) -> (r: Option<i128>)
    requires
        -0x1_0000_0000_0000_0000 < lo <= 0 <= hi < 0x1_0000_0000_0000_0000,
    ensures
        match r {
            Some(v) => int_in(s@, signed, lo as int, hi as int) == Some(v as int),
            None => int_in(s@, signed, lo as int, hi as int) is None,
        },
{
    let n = s.unicode_len();
    let mut start: usize = 0;
    let mut neg = false;
    if n > 0 && s.get_char(0) == '+' {
        start = 1;
    } else if n > 0 && s.get_char(0) == '-' && signed {
        start = 1;
        neg = true;
    }
    let ghost digits = s@.subrange(start as int, n as int);
    assert(neg == negative(s@, signed));
    assert(s@.subrange(0, n as int) == s@);
    assert(digits == digits_of(s@, signed));
    if start == n {
        return None;
    }
    let cap: i128 = 0x1_0000_0000_0000_0000;
    let mut acc: i128 = 0;
    let mut saturated = false;
    let mut i = start;
    while i < n
        invariant
            n == s@.len(),
            start <= i <= n,
            digits == s@.subrange(start as int, n as int),
            neg == negative(s@, signed),
            digits == digits_of(s@, signed),
            cap == 0x1_0000_0000_0000_0000,
            forall|j: int| start <= j < i ==> is_digit(s@[j]),
            saturated ==> digits_value(s@.subrange(start as int, i as int)) > cap,
            !saturated ==> acc == digits_value(s@.subrange(start as int, i as int)) && 0 <= acc <= cap,
        decreases n - i,
    {
        let c = s.get_char(i);
        if !('0' <= c && c <= '9') {
            assert(digits[i - start] == c);
            assert(!is_digit(digits[i - start]));
            assert(!all_digits(digits));
            return None;
        }
        let ghost pre = s@.subrange(start as int, i as int);
        assert(s@.subrange(start as int, i + 1) == pre.push(c));
        proof {
            assert forall|j: int| 0 <= j < pre.len() implies is_digit(pre[j]) by {
                assert(pre[j] == s@[start + j]);
            }
            lemma_digits_grow(pre, c);
        }
        let d = (c as u32 - 48) as i128;
        if !saturated {
            let next = acc * 10 + d;
            if next > cap {
                saturated = true;
            } else {
                acc = next;
            }
        }
        i = i + 1;
    }
    assert(digits == s@.subrange(start as int, n as int));
    assert forall|j: int| 0 <= j < digits.len() implies is_digit(digits[j]) by {
        assert(digits[j] == s@[start + j]);
    }
    if saturated {
        return None;
    }
    let v = if neg { -acc } else { acc };
    if lo <= v && v <= hi {
        Some(v)
    } else {
        None
    }
}

/// The value of a boolean token: exactly `true` or `false`.
pub open spec fn bool_value(s: Seq<char>) -> Option<bool> {
    if s == "true"@ {
        Some(true)
    } else if s == "false"@ {
        Some(false)
    } else {
        None
    }
}

/// `s` without every leading `@`.
pub open spec fn trim_at(s: Seq<char>) -> Seq<char>
    decreases s.len(),
{
    if s.len() > 0 && s[0] == '@' {
        trim_at(s.subrange(1, s.len() as int))
    } else {
        s
    }
}

/// Parses one text token into a field value; text fields of a typed argument
/// struct implement it.
pub trait FromArg: Sized {
    /// The human-readable name of the expected type, for errors.
    const TYPE_NAME: &'static str;

    /// `r` is the parse of the token `s`.
    spec fn arg_spec(s: Seq<char>, r: Option<Self>) -> bool;

    /// The value the token spells, if it parses.
    fn from_arg(s: &str) -> (r: Option<Self>)
        ensures
            Self::arg_spec(s@, r);
}

impl FromArg for String {
    const TYPE_NAME: &'static str = "string";

    open spec fn arg_spec(s: Seq<char>, r: Option<String>) -> bool {
        r matches Some(v) && v@ == s
    }

    fn from_arg(s: &str) -> (r: Option<String>) {
        Some(s.to_owned())
    }
}

impl FromArg for i64 {
    const TYPE_NAME: &'static str = "int";

    open spec fn arg_spec(s: Seq<char>, r: Option<i64>) -> bool {
        r == match int_in(s, true, i64::MIN as int, i64::MAX as int) {
            Some(v) => Some(v as i64),
            None => None,
        }
    }

    fn from_arg(s: &str) -> (r: Option<i64>) {
        match parse_int(s, true, i64::MIN as i128, i64::MAX as i128) {
            Some(v) => Some(v as i64),
            None => None,
        }
    }
}

impl FromArg for i32 {
    const TYPE_NAME: &'static str = "int";

    open spec fn arg_spec(s: Seq<char>, r: Option<i32>) -> bool {
        r == match int_in(s, true, i32::MIN as int, i32::MAX as int) {
            Some(v) => Some(v as i32),
            None => None,
        }
    }

    fn from_arg(s: &str) -> (r: Option<i32>) {
        match parse_int(s, true, i32::MIN as i128, i32::MAX as i128) {
            Some(v) => Some(v as i32),
            None => None,
        }
    }
}

impl FromArg for i16 {
    const TYPE_NAME: &'static str = "int";

    open spec fn arg_spec(s: Seq<char>, r: Option<i16>) -> bool {
        r == match int_in(s, true, i16::MIN as int, i16::MAX as int) {
            Some(v) => Some(v as i16),
            None => None,
        }
    }

    fn from_arg(s: &str) -> (r: Option<i16>) {
        match parse_int(s, true, i16::MIN as i128, i16::MAX as i128) {
            Some(v) => Some(v as i16),
            None => None,
        }
    }
}

impl FromArg for i8 {
    const TYPE_NAME: &'static str = "int";

    open spec fn arg_spec(s: Seq<char>, r: Option<i8>) -> bool {
        r == match int_in(s, true, i8::MIN as int, i8::MAX as int) {
            Some(v) => Some(v as i8),
            None => None,
        }
    }

    fn from_arg(s: &str) -> (r: Option<i8>) {
        match parse_int(s, true, i8::MIN as i128, i8::MAX as i128) {
            Some(v) => Some(v as i8),
            None => None,
        }
    }
}

impl FromArg for u64 {
    const TYPE_NAME: &'static str = "uint";

    open spec fn arg_spec(s: Seq<char>, r: Option<u64>) -> bool {
        r == match int_in(s, false, 0, u64::MAX as int) {
            Some(v) => Some(v as u64),
            None => None,
        }
    }

    fn from_arg(s: &str) -> (r: Option<u64>) {
        match parse_int(s, false, 0, u64::MAX as i128) {
            Some(v) => Some(v as u64),
            None => None,
        }
    }
}

impl FromArg for u32 {
    const TYPE_NAME: &'static str = "uint";

    open spec fn arg_spec(s: Seq<char>, r: Option<u32>) -> bool {
        r == match int_in(s, false, 0, u32::MAX as int) {
            Some(v) => Some(v as u32),
            None => None,
        }
    }

    fn from_arg(s: &str) -> (r: Option<u32>) {
        match parse_int(s, false, 0, u32::MAX as i128) {
            Some(v) => Some(v as u32),
            None => None,
        }
    }
}

impl FromArg for u16 {
    const TYPE_NAME: &'static str = "uint";

    open spec fn arg_spec(s: Seq<char>, r: Option<u16>) -> bool {
        r == match int_in(s, false, 0, u16::MAX as int) {
            Some(v) => Some(v as u16),
            None => None,
        }
    }

    fn from_arg(s: &str) -> (r: Option<u16>) {
        match parse_int(s, false, 0, u16::MAX as i128) {
            Some(v) => Some(v as u16),
            None => None,
        }
    }
}

impl FromArg for u8 {
    const TYPE_NAME: &'static str = "uint";

    open spec fn arg_spec(s: Seq<char>, r: Option<u8>) -> bool {
        r == match int_in(s, false, 0, u8::MAX as int) {
            Some(v) => Some(v as u8),
            None => None,
        }
    }

    fn from_arg(s: &str) -> (r: Option<u8>) {
        match parse_int(s, false, 0, u8::MAX as i128) {
            Some(v) => Some(v as u8),
            None => None,
        }
    }
}

impl FromArg for bool {
    const TYPE_NAME: &'static str = "bool";

    open spec fn arg_spec(s: Seq<char>, r: Option<bool>) -> bool {
        r == bool_value(s)
    }

    fn from_arg(s: &str) -> (r: Option<bool>) {
        proof {
            reveal_strlit("true");
            reveal_strlit("false");
        }
        if crate::text::str_eq(s, "true") {
            Some(true)
        } else if crate::text::str_eq(s, "false") {
            Some(false)
        } else {
            None
        }
    }
}

impl FromArg for Uin {
    const TYPE_NAME: &'static str = "uin";

    open spec fn arg_spec(s: Seq<char>, r: Option<Uin>) -> bool {
        r == match int_in(trim_at(s), true, i64::MIN as int, i64::MAX as int) {
            Some(v) => Some(Uin(v as i64)),
            None => None,
        }
    }

    /// Accepts `123` and `@123` (any number of leading `@`).
    fn from_arg(s: &str) -> (r: Option<Uin>) {
        let n = s.unicode_len();
        let mut q: usize = 0;
        assert(s@.subrange(0, n as int) == s@);
        while q < n && s.get_char(q) == '@'
            invariant
                n == s@.len(),
                q <= n,
                trim_at(s@) == trim_at(s@.subrange(q as int, n as int)),
            decreases n - q,
        {
            assert(s@.subrange(q + 1, n as int) == s@.subrange(q as int, n as int).subrange(1, (n - q) as int));
            q = q + 1;
        }
        assert(s@.subrange(0, n as int) == s@);
        let t = s.substring_char(q, n);
        assert(trim_at(t@) == t@);
        match i64::from_arg(t) {
            Some(v) => Some(Uin(v)),
            None => None,
        }
    }
}

/// The typed-argument extractor's payload.
pub struct Args<T>(pub T);

/// The words of `s` split on white space (`str::split_whitespace`), with
/// whether `s` ends inside a word.
pub open spec fn split_ws_state(s: Seq<char>) -> (Seq<Seq<char>>, bool)
    decreases s.len(),
{
    if s.len() == 0 {
        (Seq::empty(), false)
    } else {
        let prev = split_ws_state(s.drop_last());
        let c = s.last();
        if is_ws(c) {
            (prev.0, false)
        } else if prev.1 {
            (prev.0.drop_last().push(prev.0.last().push(c)), true)
        } else {
            (prev.0.push(seq![c]), true)
        }
    }
}

/// The maximal runs of non-white-space characters of `s`, in order.
pub open spec fn ws_words(s: Seq<char>) -> Seq<Seq<char>> {
    split_ws_state(s).0
}

proof fn lemma_split_state_shape(s: Seq<char>)
    ensures
        split_ws_state(s).1 ==> split_ws_state(s).0.len() > 0,
    decreases s.len(),
{
    if s.len() > 0 {
        lemma_split_state_shape(s.drop_last());
    }
}

/// Splits `t` into its white-space separated words.
pub fn split_words(t: &str) -> (r: Vec<String>)
    ensures
        r@.map_values(|w: String| w@) == ws_words(t@),
{
    let n = t.unicode_len();
    let mut words: Vec<String> = Vec::new();
    let mut in_word = false;
    let mut i: usize = 0;
    while i < n
        invariant
            n == t@.len(),
            i <= n,
            words@.map_values(|w: String| w@) == split_ws_state(t@.subrange(0, i as int)).0,
            in_word == split_ws_state(t@.subrange(0, i as int)).1,
        decreases n - i,
    {
        let c = t.get_char(i);
        let ghost pre = t@.subrange(0, i as int);
        let ghost next = t@.subrange(0, i + 1);
        assert(next.drop_last() =~= pre);
        assert(next.last() == c);
        proof {
            lemma_split_state_shape(pre);
        }
        if is_white_space(c) {
            in_word = false;
        } else if in_word {
            let ghost before = words@;
            let mut w = match words.pop() {
                Some(w) => w,
                None => String::new(),
            };
            push_char(&mut w, c);
            words.push(w);
            assert(words@.map_values(|w: String| w@) =~= split_ws_state(pre).0.drop_last().push(
                split_ws_state(pre).0.last().push(c),
            ));
        } else {
            let mut w = String::new();
            push_char(&mut w, c);
            words.push(w);
            assert(words@.map_values(|w: String| w@) =~= split_ws_state(pre).0.push(seq![c]));
            in_word = true;
        }
        i = i + 1;
    }
    assert(t@.subrange(0, n as int) =~= t@);
    words
}

/// A token of the argument stream: a word of text, or a whole non-text segment.
pub enum ArgToken {
    Word(String),
    Element(Seg),
}

/// The plain values of a token.
pub enum ArgTokenView {
    Word(Seq<char>),
    Element(SegView),
}

/// The plain values of a token stream.
pub open spec fn tokens_view(v: Seq<ArgToken>) -> Seq<ArgTokenView> {
    v.map_values(
        |x: ArgToken|
            match x {
                ArgToken::Word(w) => ArgTokenView::Word(w@),
                ArgToken::Element(s) => ArgTokenView::Element(seg_view(s)),
            },
    )
}

/// The token stream of a list of segments: each text segment contributes its
/// words, each other segment itself, in order.
pub open spec fn tokens_spec(segs: Seq<SegView>) -> Seq<ArgTokenView>
    decreases segs.len(),
{
    if segs.len() == 0 {
        Seq::empty()
    } else {
        tokens_spec(segs.drop_last()) + match segs.last() {
            SegView::Text(t) => ws_words(t).map_values(|w: Seq<char>| ArgTokenView::Word(w)),
            other => seq![ArgTokenView::Element(other)],
        }
    }
}

/// Cuts the segments after the command head into a token stream: text
/// segments split into words on white space, every other segment kept whole,
/// order preserved.
pub fn tokenize_segments(args: &[Seg]) -> (r: Vec<ArgToken>)
    ensures
        tokens_view(r@) == tokens_spec(segs_view(args@)),
{
    let mut out: Vec<ArgToken> = Vec::new();
    let mut i: usize = 0;
    while i < args.len()
        invariant
            i <= args@.len(),
            tokens_view(out@) == tokens_spec(segs_view(args@.subrange(0, i as int))),
        decreases args@.len() - i,
    {
        let ghost pre = args@.subrange(0, i as int);
        let ghost next = args@.subrange(0, i + 1);
        assert(segs_view(next).drop_last() =~= segs_view(pre));
        assert(segs_view(next).last() == seg_view(args@[i as int]));
        match &args[i] {
            Seg::Text(t) => {
                let words = split_words(t.as_str());
                let ghost base = out@;
                let mut k: usize = 0;
                while k < words.len()
                    invariant
                        k <= words@.len(),
                        words@.map_values(|w: String| w@) == ws_words(t@),
                        tokens_view(out@) == tokens_view(base) + ws_words(t@).subrange(0, k as int).map_values(
                            |w: Seq<char>| ArgTokenView::Word(w),
                        ),
                    decreases words@.len() - k,
                {
                    let w = words[k].clone();
                    assert(words@.map_values(|w: String| w@)[k as int] == words@[k as int]@);
                    assert(ws_words(t@)[k as int] == w@);
                    let ghost prev = out@;
                    out.push(ArgToken::Word(w));
                    assert(tokens_view(out@) =~= tokens_view(prev).push(ArgTokenView::Word(w@)));
                    assert(ws_words(t@).subrange(0, k + 1).map_values(|w: Seq<char>| ArgTokenView::Word(w))
                        =~= ws_words(t@).subrange(0, k as int).map_values(|w: Seq<char>| ArgTokenView::Word(w)).push(
                        ArgTokenView::Word(w@),
                    ));
                    assert(tokens_view(out@) =~= tokens_view(base) + ws_words(t@).subrange(0, k + 1).map_values(
                        |w: Seq<char>| ArgTokenView::Word(w),
                    ));
                    k = k + 1;
                }
                assert(ws_words(t@).subrange(0, words@.len() as int) =~= ws_words(t@));
            },
            other => {
                out.push(ArgToken::Element(other.duplicate()));
                assert(tokens_view(out@) =~= tokens_spec(segs_view(next)));
            },
        }
        i = i + 1;
    }
    assert(args@.subrange(0, args@.len() as int) =~= args@);
    out
}

/// The account of a mention segment.
pub fn seg_as_at(seg: &Seg) -> (r: Option<Uin>)
    ensures
        r == match *seg {
            Seg::Mention(u, _) => Some(u),
            _ => None::<Uin>,
        },
{
    match seg {
        Seg::Mention(u, _) => Some(*u),
        _ => None,
    }
}

/// Parses a token stream (and the raw argument text, for a field that keeps
/// the rest verbatim) into a value. Implemented for each argument struct of a
/// command by its author.
pub trait ParseArgs: Sized {
    /// Parses the tokens.
    fn parse_args(tokens: &[ArgToken], raw_text: &str) -> Result<Self, ArgError>;
}

/// What a parse result becomes: the arguments, or what the parse-miss policy
/// does for its error.
pub open spec fn finished<T>(
    parse: Result<T, ArgError>,
    command: Seq<char>,
    usage: Option<&str>,
    is_dev: bool,
    in_message: bool,
    r: Result<Args<T>, MissAction>,
) -> bool {
    match parse {
        Ok(v) => r == Ok::<Args<T>, MissAction>(Args(v)),
        Err(e) => r matches Err(act) && miss_action_spec(command, e, usage, is_dev, in_message, act),
    }
}

impl<T> Args<T> {
    /// What a parse result of the argument struct becomes: the arguments, or
    /// what the parse-miss policy does for its error (the handler is skipped).
    pub fn finish(
        parse: Result<T, ArgError>,
        command: &str,
        usage: Option<&str>,
        is_dev: bool,
        in_message: bool,
    ) -> (r: Result<Args<T>, MissAction>)
        ensures
            finished(parse, command@, usage, is_dev, in_message, r),
    {
        match parse {
            Ok(v) => Ok(Args(v)),
            Err(e) => Err(on_parse_miss(command, &e, usage, is_dev, in_message)),
        }
    }
}

impl<T: ParseArgs> Args<T> {
    /// The typed arguments of a matched command: the argument segments are
    /// tokenized (`tokenize_segments`) and parsed by the struct's own parser,
    /// with the raw argument text; the parser's result becomes the arguments,
    /// or what the parse-miss policy does for its error.
    pub fn from_parsed(parsed: &ParsedCommand, usage: Option<&str>, is_dev: bool, in_message: bool) -> (r:
        Result<Args<T>, MissAction>)
        ensures
            exists|tokens: &[ArgToken], raw: &str, parse: Result<T, ArgError>|
                tokens_view(tokens@) == tokens_spec(segs_view(parsed.args@)) && raw@ == parsed.args_text@
                    && call_ensures(T::parse_args, (tokens, raw), parse) && finished(
                    parse,
                    parsed.command@,
                    usage,
                    is_dev,
                    in_message,
                    r,
                ),
    {
        let tokens = tokenize_segments(parsed.args.as_slice());
        let ts = tokens.as_slice();
        let raw = parsed.args_text.as_str();
        let parse = T::parse_args(ts, raw);
        let ghost g = parse;
        let r = Self::finish(parse, parsed.command.as_str(), usage, is_dev, in_message);
        assert(tokens_view(ts@) == tokens_spec(segs_view(parsed.args@)));
        assert(call_ensures(T::parse_args, (ts, raw), g));
        r
    }
}

} // verus!
