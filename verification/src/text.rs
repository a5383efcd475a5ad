//! Small string operations of std that the rest of the library builds on, each
//! stated over the character sequence that a `String` stands for.
use vstd::prelude::*;

verus! {

/// Appends `c` to `s` (`String::push`): the characters of `s` gain `c` at the end.
#[verifier::external_body]
pub(crate) fn push_char(s: &mut String, c: char)
    ensures
        final(s)@ == old(s)@.push(c),
{
    s.push(c);
}

/// Whether two strings hold the same characters.
pub fn str_eq(a: &str, b: &str) -> (r: bool)
    ensures
        r == (a@ == b@),
{
    let n = a.unicode_len();
    if n != b.unicode_len() {
        return false;
    }
    let mut i: usize = 0;
    while i < n
        invariant
            n == a@.len(),
            n == b@.len(),
            i <= n,
            forall|k: int| 0 <= k < i ==> a@[k] == b@[k],
        decreases n - i,
    {
        if a.get_char(i) != b.get_char(i) {
            return false;
        }
        i = i + 1;
    }
    assert(a@ == b@);
    true
}

/// The characters with the Unicode `White_Space` property (what
/// `char::is_whitespace` tests).
pub open spec fn is_ws(c: char) -> bool {
    let v = c as u32;
    (0x09 <= v <= 0x0D) || v == 0x20 || v == 0x85 || v == 0xA0 || v == 0x1680 || (0x2000 <= v
        <= 0x200A) || v == 0x2028 || v == 0x2029 || v == 0x202F || v == 0x205F || v == 0x3000
}

/// Whether `c` is white space (Unicode `White_Space`).
pub fn is_white_space(c: char) -> (r: bool)
    ensures
        r == is_ws(c),
{
    let v = c as u32;
    (0x09 <= v && v <= 0x0D) || v == 0x20 || v == 0x85 || v == 0xA0 || v == 0x1680 || (0x2000 <= v
        && v <= 0x200A) || v == 0x2028 || v == 0x2029 || v == 0x202F || v == 0x205F || v == 0x3000
}

/// `s` without its leading white space.
pub open spec fn trim_ws_start(s: Seq<char>) -> Seq<char>
    decreases s.len(),
{
    if s.len() > 0 && is_ws(s[0]) {
        trim_ws_start(s.subrange(1, s.len() as int))
    } else {
        s
    }
}

pub proof fn lemma_trim(s: Seq<char>, from: int, q: int)
    requires
        0 <= from <= q <= s.len(),
        forall|j: int| from <= j < q ==> is_ws(s[j]),
        q < s.len() ==> !is_ws(s[q]),
    ensures
        trim_ws_start(s.subrange(from, s.len() as int)) == s.subrange(q, s.len() as int),
    decreases q - from,
{
    let t = s.subrange(from, s.len() as int);
    if from < q {
        lemma_trim(s, from + 1, q);
        assert(t.subrange(1, t.len() as int) == s.subrange(from + 1, s.len() as int));
    } else if t.len() > 0 {
        assert(t[0] == s[q]);
    }
}

/// The first position at or after `from` that is not white space.
pub fn skip_ws(text: &str, from: usize) -> (q: usize)
    requires
        from <= text@.len(),
    ensures
        from <= q <= text@.len(),
        trim_ws_start(text@.subrange(from as int, text@.len() as int)) == text@.subrange(q as int, text@.len() as int),
{
    let n = text.unicode_len();
    let mut q = from;
    while q < n && is_white_space(text.get_char(q))
        invariant
            n == text@.len(),
            from <= q <= n,
            forall|j: int| from <= j < q ==> is_ws(text@[j]),
        decreases n - q,
    {
        q = q + 1;
    }
    proof {
        lemma_trim(text@, from as int, q as int);
    }
    q
}

/// `s` without its trailing white space.
pub open spec fn trim_ws_end(s: Seq<char>) -> Seq<char>
    decreases s.len(),
{
    if s.len() > 0 && is_ws(s.last()) {
        trim_ws_end(s.drop_last())
    } else {
        s
    }
}

/// `s` without leading and trailing white space (`str::trim`).
pub open spec fn trim_spec(s: Seq<char>) -> Seq<char> {
    trim_ws_end(trim_ws_start(s))
}

proof fn lemma_trim_end(s: Seq<char>, q: int, e: int)
    requires
        0 <= q <= e <= s.len(),
        forall|j: int| e <= j < s.len() ==> is_ws(s[j]),
        e > q ==> !is_ws(s[e - 1]),
    ensures
        trim_ws_end(s.subrange(q, s.len() as int)) == s.subrange(q, e),
    decreases s.len() - e,
{
    let t = s.subrange(q, s.len() as int);
    if e < s.len() {
        lemma_trim_end(s.drop_last(), q, e);
        assert(t.drop_last() == s.drop_last().subrange(q, s.len() - 1));
    } else {
        assert(t == s.subrange(q, e));
    }
}

/// The range `[q, e)` of `text` that `str::trim` keeps.
pub fn trim_range(text: &str) -> (r: (usize, usize))
    ensures
        r.0 <= r.1 <= text@.len(),
        trim_spec(text@) == text@.subrange(r.0 as int, r.1 as int),
{
    let n = text.unicode_len();
    let q = skip_ws(text, 0);
    assert(text@.subrange(0, n as int) == text@);
    let mut e = n;
    while e > q && is_white_space(text.get_char(e - 1))
        invariant
            n == text@.len(),
            q <= e <= n,
            forall|j: int| e <= j < n ==> is_ws(text@[j]),
        decreases e,
    {
        e = e - 1;
    }
    proof {
        lemma_trim_end(text@, q as int, e as int);
    }
    (q, e)
}

/// `text` without leading and trailing white space, as a new string.
pub fn trim(text: &str) -> (r: String)
    ensures
        r@ == trim_spec(text@),
{
    let (q, e) = trim_range(text);
    text.substring_char(q, e).to_owned()
}

/// The decimal digits of a natural number.
pub open spec fn nat_digits(v: nat) -> Seq<char>
    decreases v,
{
    if v < 10 {
        seq![((v + 48) as u8) as char]
    } else {
        nat_digits(v / 10).push((((v % 10) + 48) as u8) as char)
    }
}

/// The decimal form of an integer, with a leading `-` when negative (as `{}` prints it).
pub open spec fn decimal(v: int) -> Seq<char> {
    if v < 0 {
        seq!['-'] + nat_digits((-v) as nat)
    } else {
        nat_digits(v as nat)
    }
}

/// The decimal digits of a number are digits.
pub proof fn lemma_nat_digits_are_digits(v: nat)
    ensures
        forall|i: int| 0 <= i < nat_digits(v).len() ==> '0' <= #[trigger] nat_digits(v)[i] <= '9',
    decreases v,
{
    if v >= 10 {
        lemma_nat_digits_are_digits(v / 10);
        let d = nat_digits(v / 10);
        assert forall|i: int| 0 <= i < nat_digits(v).len() implies '0' <= #[trigger] nat_digits(v)[i] <= '9' by {
            if i < d.len() {
                assert(nat_digits(v)[i] == d[i]);
            }
        }
    }
}

/// The decimal form of an integer is one line: no `\n`, no `\r`.
pub proof fn lemma_decimal_one_line(v: int)
    ensures
        forall|i: int| 0 <= i < decimal(v).len() ==> #[trigger] decimal(v)[i] != '\n' && decimal(v)[i] != '\r',
{
    if v < 0 {
        lemma_nat_digits_are_digits((-v) as nat);
        let d = nat_digits((-v) as nat);
        assert forall|i: int| 0 <= i < decimal(v).len() implies #[trigger] decimal(v)[i] != '\n' && decimal(v)[i] != '\r' by {
            if i > 0 {
                assert(decimal(v)[i] == d[i - 1]);
            }
        }
    } else {
        lemma_nat_digits_are_digits(v as nat);
    }
}

/// Appends the decimal digits of `v` to `s`.
pub fn push_nat(s: &mut String, v: u64)
    ensures
        final(s)@ == old(s)@ + nat_digits(v as nat),
    decreases v,
{
    if v >= 10 {
        push_nat(s, v / 10);
    }
    let d = (v % 10) as u8;
    push_char(s, (48u8 + d) as char);
    assert(((d + 48) as u8) as char == ((((v as nat) % 10) + 48) as u8) as char);
}

/// Appends the decimal form of `v` to `s`.
pub fn push_decimal(s: &mut String, v: i64)
    ensures
        final(s)@ == old(s)@ + decimal(v as int),
{
    if v < 0 {
        push_char(s, '-');
        let m: u64 = if v == i64::MIN { 9223372036854775808u64 } else { (-v) as u64 };
        push_nat(s, m);
        assert(old(s)@.push('-') + nat_digits(m as nat) == old(s)@ + (seq!['-'] + nat_digits(m as nat)));
    } else {
        push_nat(s, v as u64);
    }
}

/// The decimal form of `v`.
pub fn decimal_string(v: i64) -> (r: String)
    ensures
        r@ == decimal(v as int),
{
    let mut s = String::new();
    push_decimal(&mut s, v);
    assert(Seq::<char>::empty() + decimal(v as int) == decimal(v as int));
    s
}

/// Whether `c` occurs in `s`.
pub fn contains_char(s: &str, c: char) -> (r: bool)
    ensures
        r == s@.contains(c),
{
    let n = s.unicode_len();
    let mut i: usize = 0;
    while i < n
        invariant
            n == s@.len(),
            i <= n,
            forall|j: int| 0 <= j < i ==> s@[j] != c,
        decreases n - i,
    {
        if s.get_char(i) == c {
            assert(s@[i as int] == c);
            return true;
        }
        i = i + 1;
    }
    false
}

/// What `str::to_lowercase` gives for a string (Unicode lower case, with
/// std's context rules).
pub uninterp spec fn lower_text(s: Seq<char>) -> Seq<char>;

/// Lower-cases `s` as `str::to_lowercase` does. The result is named
/// `lower_text(s)`; Unicode's case tables are std's and are not restated here.
#[verifier::external_body]
pub(crate) fn lowercase(s: &str) -> (r: String)
    ensures
        r@ == lower_text(s@),
{
    s.to_lowercase()
}

} // verus!
