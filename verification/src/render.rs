//! The pieces of the one-line event renderer that do not depend on the event
//! model: ANSI painting, name clipping, bracket and file-name cleaning, newline
//! folding, and the `name(id)` labels looked up in the name cache.
use vstd::prelude::*;
use crate::names::NameStore;
use crate::event::Segment;
use crate::messages::MessageStore;
use crate::text::{contains_char, decimal, push_char, push_decimal, trim, trim_spec};

verus! {

/// The display limit of a name, in characters.
pub const NAME_MAX_CHARS: usize = 12;

/// Colouring style.
#[derive(Clone, Copy, PartialEq, Eq, Debug, Structural)]
pub enum Style {
    /// Plain text, no ANSI.
    Plain,
    /// ANSI colours.
    Ansi,
}

/// `s` painted with the ANSI colour `code` (unchanged for `Plain`).
pub open spec fn paint_spec(style: Style, code: Seq<char>, s: Seq<char>) -> Seq<char> {
    match style {
        Style::Plain => s,
        Style::Ansi => seq!['\x1b', '['] + code + seq!['m'] + s + seq!['\x1b', '[', '0', 'm'],
    }
}

impl Style {
    /// Wraps `s` in the colour `code` (such as `"32"` or `"1;36"`); `Plain` leaves it as is.
    pub fn paint(self, code: &str, s: &str) -> (r: String)
        ensures
            r@ == paint_spec(self, code@, s@),
    {
        match self {
            Style::Plain => s.to_owned(),
            Style::Ansi => {
                let mut out = String::new();
                push_char(&mut out, '\x1b');
                push_char(&mut out, '[');
                out.append(code);
                push_char(&mut out, 'm');
                out.append(s);
                push_char(&mut out, '\x1b');
                push_char(&mut out, '[');
                push_char(&mut out, '0');
                push_char(&mut out, 'm');
                assert(out@ == paint_spec(self, code@, s@));
                out
            },
        }
    }
}

/// Render options: the style, and the name cache with the current group.
pub struct RenderOpts<'a> {
    pub style: Style,
    /// The name cache; without one, ids are shown bare.
    pub names: Option<&'a NameStore>,
    /// The group of the event being rendered, if it is group-scoped; names of
    /// people are then looked up as that group's cards first.
    pub group: Option<i64>,
    /// The recent-message cache: recall notices show what was recalled, and
    /// replies name the replied-to sender, when the message is still cached.
    pub messages: Option<&'a MessageStore<Vec<Segment>>>,
}

impl<'a> RenderOpts<'a> {
    /// Plain text, no name lookups, no group, no message cache.
    pub open spec fn plain_spec() -> RenderOpts<'a> {
        RenderOpts { style: Style::Plain, names: None, group: None, messages: None }
    }

    /// Plain text, no name lookups.
    pub fn plain() -> (o: Self)
        ensures
            o.style == Style::Plain,
            o.names is None,
            o.group is None,
            o.messages is None,
            o == Self::plain_spec(),
    {
        RenderOpts { style: Style::Plain, names: None, group: None, messages: None }
    }
}

/// `s` without its trailing zero-width joiners.
pub open spec fn drop_zwj(s: Seq<char>) -> Seq<char>
    decreases s.len(),
{
    if s.len() > 0 && s.last() == '\u{200D}' {
        drop_zwj(s.drop_last())
    } else {
        s
    }
}

/// `s` cut to `max` characters; a cut string loses its dangling zero-width
/// joiners and ends in `…`.
pub open spec fn truncate_spec(s: Seq<char>, max: nat) -> Seq<char> {
    if s.len() <= max {
        s
    } else {
        drop_zwj(s.subrange(0, max as int)) + seq!['…']
    }
}

/// Cuts `s` to `max_chars` characters (not bytes), adding `…` when it was longer.
pub fn truncate_preview(s: &str, max_chars: usize) -> (r: String)
    ensures
        r@ == truncate_spec(s@, max_chars as nat),
{
    let n = s.unicode_len();
    if n <= max_chars {
        return s.to_owned();
    }
    let mut end = max_chars;
    while end > 0 && s.get_char(end - 1) == '\u{200D}'
        invariant
            n == s@.len(),
            end <= max_chars < n,
            drop_zwj(s@.subrange(0, max_chars as int)) == drop_zwj(s@.subrange(0, end as int)),
        decreases end,
    {
        assert(s@.subrange(0, end - 1) == s@.subrange(0, end as int).drop_last());
        end = end - 1;
    }
    let mut out = s.substring_char(0, end).to_owned();
    push_char(&mut out, '…');
    out
}

/// Cuts a name to [`NAME_MAX_CHARS`] characters.
pub fn clip_name(s: &str) -> (r: String)
    ensures
        r@ == truncate_spec(s@, NAME_MAX_CHARS as nat),
{
    truncate_preview(s, NAME_MAX_CHARS)
}

/// `t` is wrapped in `open` … `close` (at least both brackets).
pub open spec fn wrapped(t: Seq<char>, open: char, close: char) -> bool {
    t.len() >= 2 && t[0] == open && t.last() == close
}

/// The text with one layer of `[]` or `【】` removed (and trimmed); other text
/// trimmed only.
pub open spec fn strip_brackets_spec(s: Seq<char>) -> Seq<char> {
    let t = trim_spec(s);
    if wrapped(t, '[', ']') || wrapped(t, '【', '】') {
        trim_spec(t.subrange(1, t.len() - 1))
    } else {
        t
    }
}

/// Removes one layer of outer brackets (`[]` or `【】`), as in `[图片]` → `图片`.
pub fn strip_brackets(s: &str) -> (r: String)
    ensures
        r@ == strip_brackets_spec(s@),
{
    let t = trim(s);
    let n = t.as_str().unicode_len();
    if n >= 2 {
        let first = t.as_str().get_char(0);
        let last = t.as_str().get_char(n - 1);
        if (first == '[' && last == ']') || (first == '【' && last == '】') {
            let inner = t.as_str().substring_char(1, n - 1);
            return trim(inner);
        }
    }
    t
}

/// Whether the trimmed text is a bracketed placeholder such as `[动画表情]`.
pub fn is_bracketed(s: &str) -> (r: bool)
    ensures
        r == (wrapped(trim_spec(s@), '[', ']') || wrapped(trim_spec(s@), '【', '】')),
{
    let t = trim(s);
    let n = t.as_str().unicode_len();
    if n < 2 {
        return false;
    }
    let first = t.as_str().get_char(0);
    let last = t.as_str().get_char(n - 1);
    (first == '[' && last == ']') || (first == '【' && last == '】')
}

/// A path separator (`/` or `\`).
pub open spec fn is_sep(c: char) -> bool {
    c == '/' || c == '\\'
}

/// What follows the last path separator of `s` (all of `s` without one).
pub open spec fn last_part(s: Seq<char>) -> Seq<char>
    decreases s.len(),
{
    if s.len() == 0 {
        s
    } else if is_sep(s.last()) {
        Seq::empty()
    } else {
        last_part(s.drop_last()).push(s.last())
    }
}

/// ASCII lower case of `c`.
pub open spec fn ascii_lower(c: char) -> char {
    if 'A' <= c <= 'Z' {
        ((c as u8) + 32) as char
    } else {
        c
    }
}

/// `s` equals `"download"` ignoring ASCII case.
pub open spec fn is_download(s: Seq<char>) -> bool {
    s.len() == 8 && forall|i: int| 0 <= i < 8 ==> ascii_lower(#[trigger] s[i]) == "download"@[i]
}

/// The displayable file name of a candidate: its last path segment, trimmed;
/// none when empty, when it holds URL query residue (`?`, `=`, `&`) or when it
/// is `download`.
pub open spec fn clean_file_name_spec(raw: Seq<char>) -> Option<Seq<char>> {
    let base = trim_spec(last_part(raw));
    if base.len() == 0 || base.contains('?') || base.contains('=') || base.contains('&')
        || is_download(base) {
        None
    } else {
        Some(base)
    }
}

proof fn lemma_last_part(s: Seq<char>, k: int)
    requires
        0 <= k <= s.len(),
        k > 0 ==> is_sep(s[k - 1]),
        forall|j: int| k <= j < s.len() ==> !is_sep(s[j]),
    ensures
        last_part(s) == s.subrange(k, s.len() as int),
    decreases s.len(),
{
    if s.len() > 0 {
        if k < s.len() {
            lemma_last_part(s.drop_last(), k);
            assert(s.drop_last().subrange(k, s.len() - 1).push(s.last()) == s.subrange(k, s.len() as int));
        }
    }
}

fn lower_ascii(c: char) -> (r: char)
    ensures
        r == ascii_lower(c),
{
    if 'A' <= c && c <= 'Z' {
        ((c as u8) + 32) as char
    } else {
        c
    }
}

/// Cleans a candidate (file name, local path or download URL) into a
/// displayable file name (see [`clean_file_name_spec`]).
pub fn clean_file_name(raw: &str) -> (r: Option<String>)
    ensures
        match r {
            Some(x) => clean_file_name_spec(raw@) == Some(x@),
            None => clean_file_name_spec(raw@) is None,
        },
{
    let n = raw.unicode_len();
    let mut k = n;
    while k > 0 && !(raw.get_char(k - 1) == '/' || raw.get_char(k - 1) == '\\')
        invariant
            n == raw@.len(),
            k <= n,
            forall|j: int| k <= j < n ==> !is_sep(raw@[j]),
        decreases k,
    {
        k = k - 1;
    }
    proof {
        lemma_last_part(raw@, k as int);
    }
    let base = trim(raw.substring_char(k, n));
    let b = base.as_str();
    let m = b.unicode_len();
    if m == 0 || contains_char(b, '?') || contains_char(b, '=') || contains_char(b, '&') {
        return None;
    }
    if m == 8 {
        let word = "download";
        proof {
            reveal_strlit("download");
        }
        let mut i: usize = 0;
        let mut same = true;
        while i < 8
            invariant
                m == b@.len(),
                m == 8,
                word@ == "download"@,
                word@.len() == 8,
                i <= 8,
                same == forall|j: int| 0 <= j < i ==> ascii_lower(#[trigger] b@[j]) == "download"@[j],
            decreases 8 - i,
        {
            let c = lower_ascii(b.get_char(i));
            let d = word.get_char(i);
            same = same && c == d;
            i = i + 1;
        }
        if same {
            return None;
        }
    }
    Some(base)
}

/// `s` on one line: each `\r\n`, `\n` or `\r` becomes ` ⏎ `.
pub open spec fn fold_spec(s: Seq<char>) -> Seq<char>
    decreases s.len(),
{
    if s.len() == 0 {
        s
    } else if s.len() >= 2 && s[0] == '\r' && s[1] == '\n' {
        seq![' ', '⏎', ' '] + fold_spec(s.subrange(2, s.len() as int))
    } else if s[0] == '\n' || s[0] == '\r' {
        seq![' ', '⏎', ' '] + fold_spec(s.subrange(1, s.len() as int))
    } else {
        seq![s[0]] + fold_spec(s.subrange(1, s.len() as int))
    }
}

/// Folds line breaks into a visible ` ⏎ ` so that the text stays on one line.
pub fn fold_newlines(s: &str) -> (r: String)
    ensures
        r@ == fold_spec(s@),
{
    let n = s.unicode_len();
    let mut out = String::new();
    let mut i: usize = 0;
    assert(s@.subrange(0, n as int) == s@);
    while i < n
        invariant
            n == s@.len(),
            i <= n,
            fold_spec(s@) == out@ + fold_spec(s@.subrange(i as int, n as int)),
        decreases n - i,
    {
        let ghost rest = s@.subrange(i as int, n as int);
        let c = s.get_char(i);
        if c == '\r' && i + 1 < n && s.get_char(i + 1) == '\n' {
            push_char(&mut out, ' ');
            push_char(&mut out, '⏎');
            push_char(&mut out, ' ');
            assert(rest.subrange(2, rest.len() as int) == s@.subrange(i + 2, n as int));
            i = i + 2;
        } else if c == '\n' || c == '\r' {
            push_char(&mut out, ' ');
            push_char(&mut out, '⏎');
            push_char(&mut out, ' ');
            assert(rest.subrange(1, rest.len() as int) == s@.subrange(i + 1, n as int));
            i = i + 1;
        } else {
            push_char(&mut out, c);
            assert(rest.subrange(1, rest.len() as int) == s@.subrange(i + 1, n as int));
            i = i + 1;
        }
    }
    assert(fold_spec(s@.subrange(n as int, n as int)) == Seq::<char>::empty());
    out
}

/// `name(id)` with the name clipped, or the bare id.
pub open spec fn label_spec(name: Option<Seq<char>>, id: i64) -> Seq<char> {
    match name {
        Some(n) => truncate_spec(n, NAME_MAX_CHARS as nat) + seq!['('] + decimal(id as int) + seq![')'],
        None => decimal(id as int),
    }
}

fn label(name: Option<String>, id: i64) -> (r: String)
    ensures
        r@ == label_spec(
            match name {
                Some(n) => Some(n@),
                None => None,
            },
            id,
        ),
{
    match name {
        Some(n) => {
            let mut out = clip_name(n.as_str());
            push_char(&mut out, '(');
            push_decimal(&mut out, id);
            push_char(&mut out, ')');
            out
        },
        None => {
            let mut out = String::new();
            push_decimal(&mut out, id);
            assert(Seq::<char>::empty() + decimal(id as int) == decimal(id as int));
            out
        },
    }
}

/// The cached name of group `gid`, if any.
pub open spec fn group_name_spec(opts: RenderOpts, gid: i64) -> Option<Seq<char>> {
    match opts.names {
        Some(n) => if n@.groups.contains_key(gid) { Some(n@.groups[gid]) } else { None },
        None => None,
    }
}

/// A group as `name(number)` when its name is cached, else the bare number.
pub fn group_label(gid: i64, opts: &RenderOpts) -> (r: String)
    ensures
        r@ == label_spec(group_name_spec(*opts, gid), gid),
{
    let name = match opts.names {
        Some(n) => n.group(gid),
        None => None,
    };
    label(name, gid)
}

/// The name of a person in the current context: the current group's card
/// first (then the global name), or the global name without a group.
pub open spec fn resolve_user_spec(opts: RenderOpts, uin: i64) -> Option<Seq<char>> {
    match opts.names {
        None => None,
        Some(n) => match opts.group {
            Some(g) => if n@.members.contains_key((g, uin)) {
                Some(n@.members[(g, uin)])
            } else if n@.users.contains_key(uin) {
                Some(n@.users[uin])
            } else {
                None
            },
            None => if n@.users.contains_key(uin) { Some(n@.users[uin]) } else { None },
        },
    }
}

/// Resolves a person's name in the current context (see [`resolve_user_spec`]).
pub fn resolve_user(uin: i64, opts: &RenderOpts) -> (r: Option<String>)
    ensures
        match r {
            Some(s) => resolve_user_spec(*opts, uin) == Some(s@),
            None => resolve_user_spec(*opts, uin) is None,
        },
{
    match opts.names {
        Some(n) => match opts.group {
            Some(g) => n.member(g, uin),
            None => n.user(uin),
        },
        None => None,
    }
}

/// A person as `name(number)` when a name resolves, else the bare number.
pub fn user_label(uin: i64, opts: &RenderOpts) -> (r: String)
    ensures
        r@ == label_spec(resolve_user_spec(*opts, uin), uin),
{
    let name = resolve_user(uin, opts);
    label(name, uin)
}

proof fn lemma_drop_zwj_len(s: Seq<char>)
    ensures
        drop_zwj(s).len() <= s.len(),
    decreases s.len(),
{
    if s.len() > 0 && s.last() == '\u{200D}' {
        lemma_drop_zwj_len(s.drop_last());
    }
}

/// A cut string never has more than `max` characters plus the ellipsis.
pub proof fn law_truncate_bound(s: Seq<char>, max: nat)
    ensures
        truncate_spec(s, max).len() <= max + 1,
{
    if s.len() > max {
        lemma_drop_zwj_len(s.subrange(0, max as int));
    }
}

/// Text without line breaks folds to itself.
pub proof fn lemma_fold_keeps_one_line(s: Seq<char>)
    requires
        forall|i: int| 0 <= i < s.len() ==> #[trigger] s[i] != '\n' && s[i] != '\r',
    ensures
        fold_spec(s) == s,
    decreases s.len(),
{
    if s.len() > 0 {
        let rest = s.subrange(1, s.len() as int);
        assert forall|i: int| 0 <= i < rest.len() implies #[trigger] rest[i] != '\n' && rest[i] != '\r' by {
            assert(rest[i] == s[i + 1]);
        }
        lemma_fold_keeps_one_line(rest);
        assert(seq![s[0]] + rest =~= s);
    }
}

/// Folded text is one line: it holds no `\n` and no `\r`.
pub proof fn law_fold_single_line(s: Seq<char>)
    ensures
        !fold_spec(s).contains('\n'),
        !fold_spec(s).contains('\r'),
    decreases s.len(),
{
    if s.len() > 0 {
        let rest = if s.len() >= 2 && s[0] == '\r' && s[1] == '\n' {
            s.subrange(2, s.len() as int)
        } else {
            s.subrange(1, s.len() as int)
        };
        law_fold_single_line(rest);
        let head: Seq<char> = if s.len() >= 2 && s[0] == '\r' && s[1] == '\n' {
            seq![' ', '⏎', ' ']
        } else if s[0] == '\n' || s[0] == '\r' {
            seq![' ', '⏎', ' ']
        } else {
            seq![s[0]]
        };
        assert(fold_spec(s) == head + fold_spec(rest));
        assert forall|i: int| 0 <= i < fold_spec(s).len() implies fold_spec(s)[i] != '\n' && fold_spec(s)[i] != '\r' by {
            if i >= head.len() {
                assert(fold_spec(s)[i] == fold_spec(rest)[i - head.len()]);
            }
        }
    }
}

} // verus!
