//! Command matching: the regex at the core, the literal-command and slot
//! pattern builders, and the decision whether a message hits a command and
//! what its arguments are.
//!
//! Leading `@bot` mentions (at most two, after an optional leading reply) are
//! stripped from every message before matching; `mention_me` commands also
//! require the message to be addressed to the bot and drop a leading `/`. The
//! regex runs on the first text segment; whatever the match leaves, with the
//! other segments, becomes the arguments.
use vstd::prelude::*;
use crate::ids::Uin;
use crate::text::{push_char, trim, trim_spec, trim_ws_start};

verus! {

#[verifier::external_type_specification]
#[verifier::external_body]
pub struct ExRegex(regex::Regex);

#[verifier::external_type_specification]
#[verifier::external_body]
pub struct ExRegexError(regex::Error);

/// The characters `regex::escape` escapes (regex-syntax's `is_meta_character`).
pub open spec fn is_meta(c: char) -> bool {
    c == '\\' || c == '.' || c == '+' || c == '*' || c == '?' || c == '(' || c == ')' || c == '|'
        || c == '[' || c == ']' || c == '{' || c == '}' || c == '^' || c == '$' || c == '#' || c
        == '&' || c == '-' || c == '~'
}

/// `s` with a backslash before every meta character.
pub open spec fn escape_spec(s: Seq<char>) -> Seq<char>
    decreases s.len(),
{
    if s.len() == 0 {
        s
    } else if is_meta(s.last()) {
        escape_spec(s.drop_last()) + seq!['\\', s.last()]
    } else {
        escape_spec(s.drop_last()).push(s.last())
    }
}

/// `regex::escape`: every meta character of `s` gets a backslash before it, so
/// that the result matches `s` literally.
#[verifier::external_body]
fn escape_literal(s: &str) -> (r: String)
    ensures
        r@ == escape_spec(s@),
{
    regex::escape(s)
}

/// Escapes a literal into a regex fragment (as `regex::escape` does).
pub fn regex_escape(s: &str) -> (r: String)
    ensures
        r@ == escape_spec(s@),
{
    escape_literal(s)
}

/// Whether the regex crate accepts `pattern` (syntax and size limits).
pub uninterp spec fn regex_compiles(pattern: Seq<char>) -> bool;

/// A compiled regex together with the pattern it was compiled from.
pub struct CompiledPattern {
    source: String,
    re: regex::Regex,
}

impl CompiledPattern {
    /// The pattern this regex was compiled from.
    pub closed spec fn source_spec(&self) -> Seq<char> {
        self.source@
    }
}

/// Compiles `pattern` (`regex::Regex::new`); `Ok` exactly when the crate accepts
/// it, and the result remembers its pattern.
#[verifier::external_body]
fn compile(pattern: &str) -> (r: Result<CompiledPattern, regex::Error>)
    ensures
        r is Ok <==> regex_compiles(pattern@),
        r matches Ok(c) ==> c.source_spec() == pattern@,
{
    match regex::Regex::new(pattern) {
        Ok(re) => Ok(CompiledPattern { source: pattern.to_string(), re }),
        Err(e) => Err(e),
    }
}

/// The first match of a regex in a text: the text before it, the match, the
/// text after it, and each capture group (`None` where it did not take part).
pub struct CaptureView {
    pub before: Seq<char>,
    pub whole: Seq<char>,
    pub after: Seq<char>,
    pub groups: Seq<Option<Seq<char>>>,
}

/// What `Regex::captures` finds for `pattern` in `text` (leftmost-first).
pub uninterp spec fn regex_captures(pattern: Seq<char>, text: Seq<char>) -> Option<CaptureView>;

/// A match, as exec values.
pub struct Captured {
    pub before: String,
    pub whole: String,
    pub after: String,
    pub groups: Vec<Option<String>>,
}

/// The plain values of a match.
pub open spec fn captured_view(c: Captured) -> CaptureView {
    CaptureView {
        before: c.before@,
        whole: c.whole@,
        after: c.after@,
        groups: c.groups@.map_values(|g: Option<String>| match g {
            Some(s) => Some(s@),
            None => None,
        }),
    }
}

/// Runs `Regex::captures` on `text`: the result is named
/// `regex_captures(pattern, text)`; a match splits the text into before,
/// match and after.
#[verifier::external_body]
fn find_captures(cp: &CompiledPattern, text: &str) -> (r: Option<Captured>)
    ensures
        match r {
            Some(c) => regex_captures(cp.source_spec(), text@) == Some(captured_view(c))
                && c.before@ + c.whole@ + c.after@ == text@,
            None => regex_captures(cp.source_spec(), text@) is None,
        },
{
    let caps = cp.re.captures(text)?;
    let (s, e) = caps.get(0).map_or((0, 0), |m| (m.start(), m.end()));
    let groups = caps.iter().skip(1).map(|g| g.map(|m| m.as_str().to_string())).collect();
    Some(Captured {
        before: text[..s].to_string(),
        whole: text[s..e].to_string(),
        after: text[e..].to_string(),
        groups,
    })
}

/// The number of capturing groups in a regex fragment, counted by a scan that
/// skips escaped characters and character classes and counts bare `(` and named
/// groups (`(?P<` and `(?<`).
pub open spec fn groups_from(s: Seq<char>, in_class: bool) -> int
    decreases s.len(),
{
    if s.len() == 0 {
        0
    } else if s[0] == '\\' {
        if s.len() >= 2 {
            groups_from(s.subrange(2, s.len() as int), in_class)
        } else {
            0
        }
    } else if s[0] == '[' && !in_class {
        groups_from(s.subrange(1, s.len() as int), true)
    } else if s[0] == ']' && in_class {
        groups_from(s.subrange(1, s.len() as int), false)
    } else if s[0] == '(' && !in_class {
        (if s.len() > 1 && s[1] == '?' {
            if s.len() > 2 && (s[2] == 'P' || s[2] == '<') { 1int } else { 0int }
        } else {
            1int
        }) + groups_from(s.subrange(1, s.len() as int), in_class)
    } else {
        groups_from(s.subrange(1, s.len() as int), in_class)
    }
}

proof fn lemma_groups_nonneg(s: Seq<char>, in_class: bool)
    ensures
        0 <= groups_from(s, in_class) <= s.len(),
    decreases s.len(),
{
    if s.len() > 0 {
        if s[0] == '\\' {
            if s.len() >= 2 {
                lemma_groups_nonneg(s.subrange(2, s.len() as int), in_class);
            }
        } else if s[0] == '[' && !in_class {
            lemma_groups_nonneg(s.subrange(1, s.len() as int), true);
        } else if s[0] == ']' && in_class {
            lemma_groups_nonneg(s.subrange(1, s.len() as int), false);
        } else {
            lemma_groups_nonneg(s.subrange(1, s.len() as int), in_class);
        }
    }
}

/// Counts the capturing groups of a regex fragment (see [`groups_from`]).
pub fn count_capturing_groups(src: &str) -> (n: usize)
    ensures
        n == groups_from(src@, false),
{
    let len = src.unicode_len();
    let mut n: usize = 0;
    let mut i: usize = 0;
    let mut in_class = false;
    assert(src@.subrange(0, len as int) == src@);
    while i < len
        invariant
            len == src@.len(),
            i <= len,
            n <= i,
            n + groups_from(src@.subrange(i as int, len as int), in_class) == groups_from(src@, false),
        decreases len - i,
    {
        let ghost rest = src@.subrange(i as int, len as int);
        let c = src.get_char(i);
        if c == '\\' {
            if len - i >= 2 {
                assert(rest.subrange(2, rest.len() as int) == src@.subrange(i + 2, len as int));
                i = i + 2;
            } else {
                i = len;
            }
        } else if c == '[' && !in_class {
            assert(rest.subrange(1, rest.len() as int) == src@.subrange(i + 1, len as int));
            in_class = true;
            i = i + 1;
        } else if c == ']' && in_class {
            assert(rest.subrange(1, rest.len() as int) == src@.subrange(i + 1, len as int));
            in_class = false;
            i = i + 1;
        } else if c == '(' && !in_class {
            assert(rest.subrange(1, rest.len() as int) == src@.subrange(i + 1, len as int));
            if i + 1 < len && src.get_char(i + 1) == '?' {
                if i + 2 < len && (src.get_char(i + 2) == 'P' || src.get_char(i + 2) == '<') {
                    n = n + 1;
                }
            } else {
                n = n + 1;
            }
            i = i + 1;
        } else {
            assert(rest.subrange(1, rest.len() as int) == src@.subrange(i + 1, len as int));
            i = i + 1;
        }
    }
    assert(src@.subrange(len as int, len as int) == Seq::<char>::empty());
    n
}

/// Each space of `s` relaxed to `\s+`.
pub open spec fn relax_spaces(s: Seq<char>) -> Seq<char>
    decreases s.len(),
{
    if s.len() == 0 {
        s
    } else if s.last() == ' ' {
        relax_spaces(s.drop_last()) + seq!['\\', 's', '+']
    } else {
        relax_spaces(s.drop_last()).push(s.last())
    }
}

/// The alternatives of a literal command, escaped, spaces relaxed, joined by `|`.
pub open spec fn alternation(alts: Seq<Seq<char>>) -> Seq<char>
    decreases alts.len(),
{
    if alts.len() == 0 {
        Seq::empty()
    } else if alts.len() == 1 {
        relax_spaces(escape_spec(alts[0]))
    } else {
        alternation(alts.drop_last()) + seq!['|'] + relax_spaces(escape_spec(alts.last()))
    }
}

/// The pattern of a literal command: `^(?:a|b)(?:\s|$)`; with no words a pattern
/// that never matches (`\z\A`).
pub open spec fn command_pattern_spec(alts: Seq<Seq<char>>) -> Seq<char> {
    let body = if alts.len() == 0 { seq!['\\', 'z', '\\', 'A'] } else { alternation(alts) };
    seq!['^', '(', '?', ':'] + body + seq![')', '(', '?', ':', '\\', 's', '|', '$', ')']
}

fn push_relaxed(out: &mut String, s: &str)
    ensures
        final(out)@ == old(out)@ + relax_spaces(s@),
{
    let n = s.unicode_len();
    let ghost base = out@;
    let mut i: usize = 0;
    while i < n
        invariant
            n == s@.len(),
            i <= n,
            out@ == base + relax_spaces(s@.subrange(0, i as int)),
        decreases n - i,
    {
        let c = s.get_char(i);
        assert(s@.subrange(0, i + 1).drop_last() == s@.subrange(0, i as int));
        if c == ' ' {
            push_char(out, '\\');
            push_char(out, 's');
            push_char(out, '+');
        } else {
            push_char(out, c);
        }
        i = i + 1;
    }
    assert(s@.subrange(0, n as int) == s@);
}

/// Builds the pattern of a literal command (see [`command_pattern_spec`]).
pub fn command_pattern(alts: &[String]) -> (p: String)
    ensures
        p@ == command_pattern_spec(alts@.map_values(|a: String| a@)),
{
    let ghost av = alts@.map_values(|a: String| a@);
    let mut out = String::new();
    push_char(&mut out, '^');
    push_char(&mut out, '(');
    push_char(&mut out, '?');
    push_char(&mut out, ':');
    let ghost head = out@;
    if alts.len() == 0 {
        push_char(&mut out, '\\');
        push_char(&mut out, 'z');
        push_char(&mut out, '\\');
        push_char(&mut out, 'A');
    } else {
        let mut i: usize = 0;
        while i < alts.len()
            invariant
                av == alts@.map_values(|a: String| a@),
                i <= alts@.len(),
                alts@.len() > 0,
                out@ == head + alternation(av.subrange(0, i as int)),
            decreases alts@.len() - i,
        {
            if i > 0 {
                push_char(&mut out, '|');
            }
            let e = escape_literal(alts[i].as_str());
            push_relaxed(&mut out, e.as_str());
            assert(av.subrange(0, i + 1).drop_last() == av.subrange(0, i as int));
            assert(av.subrange(0, i + 1).last() == alts@[i as int]@);
            i = i + 1;
        }
        assert(av.subrange(0, alts@.len() as int) == av);
    }
    push_char(&mut out, ')');
    push_char(&mut out, '(');
    push_char(&mut out, '?');
    push_char(&mut out, ':');
    push_char(&mut out, '\\');
    push_char(&mut out, 's');
    push_char(&mut out, '|');
    push_char(&mut out, '$');
    push_char(&mut out, ')');
    out
}

/// Where a slot stands relative to the literal head.
#[derive(Clone, Copy, Debug, PartialEq, Eq, Structural)]
pub enum Flank {
    /// The slot is the whole program.
    Whole,
    /// Before the literal head.
    Pre,
    /// After the literal head.
    Post,
}

/// One ordered slot of a slot program: the injection key of each capture group
/// of `src` (none for the literal head), the fragment, whether the whole slot
/// is optional, and its flank.
pub struct SlotSpec {
    pub names: Vec<String>,
    pub src: String,
    pub optional: bool,
    pub flank: Flank,
}

/// The plain values of a slot.
pub struct SlotView {
    pub names: Seq<Seq<char>>,
    pub src: Seq<char>,
    pub optional: bool,
    pub flank: Flank,
}

/// The plain values of a slot spec.
pub open spec fn slot_view(s: SlotSpec) -> SlotView {
    SlotView { names: s.names@.map_values(|n: String| n@), src: s.src@, optional: s.optional, flank: s.flank }
}

impl SlotSpec {
    /// A named, single-capture, required slot.
    pub fn named(name: &str, src: &str) -> (s: SlotSpec)
        ensures
            slot_view(s) == (SlotView { names: seq![name@], src: src@, optional: false, flank: Flank::Whole }),
    {
        let mut names: Vec<String> = Vec::new();
        names.push(name.to_owned());
        let s = SlotSpec { names, src: src.to_owned(), optional: false, flank: Flank::Whole };
        assert(s.names@.map_values(|n: String| n@) =~= seq![name@]);
        s
    }

    /// A named, single-capture, optional slot.
    pub fn optional(name: &str, src: &str) -> (s: SlotSpec)
        ensures
            slot_view(s) == (SlotView { names: seq![name@], src: src@, optional: true, flank: Flank::Whole }),
    {
        let mut names: Vec<String> = Vec::new();
        names.push(name.to_owned());
        let s = SlotSpec { names, src: src.to_owned(), optional: true, flank: Flank::Whole };
        assert(s.names@.map_values(|n: String| n@) =~= seq![name@]);
        s
    }

    /// A literal head (no capture, not injected); `src` should be escaped already.
    pub fn literal(src: &str) -> (s: SlotSpec)
        ensures
            slot_view(s) == (SlotView { names: Seq::<Seq<char>>::empty(), src: src@, optional: false, flank: Flank::Whole }),
    {
        let s = SlotSpec { names: Vec::new(), src: src.to_owned(), optional: false, flank: Flank::Whole };
        assert(s.names@.map_values(|n: String| n@) =~= Seq::<Seq<char>>::empty());
        s
    }
}

/// The slots of one flank, in declaration order.
pub open spec fn of_flank(specs: Seq<SlotView>, f: Flank) -> Seq<SlotView> {
    specs.filter(|s: SlotView| s.flank == f)
}

/// The slots in program order: `Pre`, then `Whole`, then `Post` (each in
/// declaration order).
pub open spec fn program_order(specs: Seq<SlotView>) -> Seq<SlotView> {
    of_flank(specs, Flank::Pre) + of_flank(specs, Flank::Whole) + of_flank(specs, Flank::Post)
}

/// The state of slot compilation: the pattern so far, the (name, group) map,
/// and the number of groups opened.
pub struct SlotState {
    pub pat: Seq<char>,
    pub names: Seq<(Seq<char>, int)>,
    pub groups: int,
}

/// `frag`, wrapped in `(?:…)?` when optional.
pub open spec fn maybe_optional(frag: Seq<char>, optional: bool) -> Seq<char> {
    if optional {
        seq!['(', '?', ':'] + frag + seq![')', '?']
    } else {
        frag
    }
}

/// Binds `names` to the next groups, from `groups + 1` on.
pub open spec fn bind_names(acc: Seq<(Seq<char>, int)>, names: Seq<Seq<char>>, groups: int) -> Seq<(Seq<char>, int)>
    decreases names.len(),
{
    if names.len() == 0 {
        acc
    } else {
        bind_names(acc.push((names[0], groups + 1)), names.subrange(1, names.len() as int), groups + 1)
    }
}

/// Adds one slot to the program: a literal head keeps its own groups unnamed;
/// a named slot without groups and with one name is wrapped in a group; its
/// groups are bound to its names in order, and extra groups still count.
pub open spec fn slot_step(st: SlotState, s: SlotView) -> SlotState {
    let inner = groups_from(s.src, false);
    if s.names.len() == 0 {
        SlotState { pat: st.pat + maybe_optional(s.src, s.optional), names: st.names, groups: st.groups + inner }
    } else {
        let frag = if inner == 0 && s.names.len() == 1 { seq!['('] + s.src + seq![')'] } else { s.src };
        let bound = s.names.len() as int;
        SlotState {
            pat: st.pat + maybe_optional(frag, s.optional),
            names: bind_names(st.names, s.names, st.groups),
            groups: st.groups + bound + (if inner > bound { inner - bound } else { 0 }),
        }
    }
}

/// Compiling a sequence of slots from a state.
pub open spec fn slots_fold(st: SlotState, specs: Seq<SlotView>) -> SlotState
    decreases specs.len(),
{
    if specs.len() == 0 {
        st
    } else {
        slots_fold(slot_step(st, specs[0]), specs.subrange(1, specs.len() as int))
    }
}

/// The anchored pattern and the (name, group) map of a slot program.
pub open spec fn slots_program(specs: Seq<SlotView>) -> SlotState {
    slots_fold(SlotState { pat: seq!['^'], names: Seq::empty(), groups: 0 }, program_order(specs))
}

proof fn lemma_fold_push(st: SlotState, specs: Seq<SlotView>, s: SlotView)
    ensures
        slots_fold(st, specs.push(s)) == slot_step(slots_fold(st, specs), s),
    decreases specs.len(),
{
    reveal_with_fuel(slots_fold, 2);
    if specs.len() > 0 {
        assert(specs.push(s)[0] == specs[0]);
        assert(specs.push(s).subrange(1, specs.len() as int + 1) == specs.subrange(1, specs.len() as int).push(s));
        lemma_fold_push(slot_step(st, specs[0]), specs.subrange(1, specs.len() as int), s);
    } else {
        assert(specs.push(s)[0] == s);
        assert(specs.push(s).subrange(1, 1) == Seq::<SlotView>::empty());
    }
}

proof fn lemma_fold_append(st: SlotState, a: Seq<SlotView>, b: Seq<SlotView>)
    ensures
        slots_fold(st, a + b) == slots_fold(slots_fold(st, a), b),
    decreases b.len(),
{
    if b.len() > 0 {
        lemma_fold_append(st, a, b.drop_last());
        assert(a + b == (a + b.drop_last()).push(b.last()));
        lemma_fold_push(st, a + b.drop_last(), b.last());
        lemma_fold_push(slots_fold(st, a), b.drop_last(), b.last());
        assert(b.drop_last().push(b.last()) == b);
    } else {
        assert(a + b == a);
    }
}

fn push_str_frag(out: &mut String, frag: &str, optional: bool)
    ensures
        final(out)@ == old(out)@ + maybe_optional(frag@, optional),
{
    if optional {
        push_char(out, '(');
        push_char(out, '?');
        push_char(out, ':');
        out.append(frag);
        push_char(out, ')');
        push_char(out, '?');
    } else {
        out.append(frag);
    }
}

/// Adds one slot to the pattern and the name map (see [`slot_step`]).
fn add_slot(pat: &mut String, names: &mut Vec<(String, usize)>, groups: &mut usize, s: &SlotSpec)
    requires
        slot_step(
            SlotState {
                pat: old(pat)@,
                names: old(names)@.map_values(|e: (String, usize)| (e.0@, e.1 as int)),
                groups: *old(groups) as int,
            },
            slot_view(*s),
        ).groups <= usize::MAX,
    ensures
        ({
            let st = SlotState {
                pat: old(pat)@,
                names: old(names)@.map_values(|e: (String, usize)| (e.0@, e.1 as int)),
                groups: *old(groups) as int,
            };
            let st2 = slot_step(st, slot_view(*s));
            &&& final(pat)@ == st2.pat
            &&& final(names)@.map_values(|e: (String, usize)| (e.0@, e.1 as int)) == st2.names
            &&& *final(groups) as int == st2.groups
        }),
{
    let inner = count_capturing_groups(s.src.as_str());
    proof {
        lemma_groups_nonneg(s.src@, false);
    }
    if s.names.len() == 0 {
        push_str_frag(pat, s.src.as_str(), s.optional);
        *groups = *groups + inner;
        return;
    }
    if inner == 0 && s.names.len() == 1 {
        let mut frag = String::new();
        push_char(&mut frag, '(');
        frag.append(s.src.as_str());
        push_char(&mut frag, ')');
        push_str_frag(pat, frag.as_str(), s.optional);
    } else {
        push_str_frag(pat, s.src.as_str(), s.optional);
    }
    let ghost sv = s.names@.map_values(|n: String| n@);
    let ghost acc0 = old(names)@.map_values(|e: (String, usize)| (e.0@, e.1 as int));
    let ghost g0 = *old(groups) as int;
    proof {
        lemma_groups_nonneg(s.src@, false);
    }
    assert(sv.subrange(0, sv.len() as int) == sv);
    let mut k: usize = 0;
    while k < s.names.len()
        invariant
            k <= s.names@.len(),
            sv == s.names@.map_values(|n: String| n@),
            *groups == g0 + k,
            0 <= groups_from(s.src@, false),
            g0 + s.names@.len() <= usize::MAX,
            bind_names(acc0, sv, g0) == bind_names(
                names@.map_values(|e: (String, usize)| (e.0@, e.1 as int)),
                sv.subrange(k as int, sv.len() as int),
                *groups as int,
            ),
        decreases s.names@.len() - k,
    {
        let ghost before = names@.map_values(|e: (String, usize)| (e.0@, e.1 as int));
        let ghost rest = sv.subrange(k as int, sv.len() as int);
        *groups = *groups + 1;
        let ghost nv = s.names@[k as int]@;
        names.push((s.names[k].clone(), *groups));
        assert(names@.map_values(|e: (String, usize)| (e.0@, e.1 as int)) =~= before.push((nv, *groups as int)));
        assert(rest[0] == nv);
        assert(rest.subrange(1, rest.len() as int) =~= sv.subrange(k + 1, sv.len() as int));
        k = k + 1;
    }
    assert(sv.subrange(sv.len() as int, sv.len() as int) =~= Seq::<Seq<char>>::empty());
    if inner > s.names.len() {
        *groups = *groups + (inner - s.names.len());
    }
}

/// The slots of one flank, in declaration order.
fn flank_of(specs: &Vec<SlotSpec>, f: Flank) -> (r: Vec<usize>)
    ensures
        r@.map_values(|i: usize| slot_view(specs@[i as int])) == of_flank(specs@.map_values(|s: SlotSpec| slot_view(s)), f),
        forall|j: int| 0 <= j < r@.len() ==> r@[j] < specs@.len(),
{
    let ghost sv = specs@.map_values(|s: SlotSpec| slot_view(s));
    let mut r: Vec<usize> = Vec::new();
    let mut i: usize = 0;
    while i < specs.len()
        invariant
            i <= specs@.len(),
            sv == specs@.map_values(|s: SlotSpec| slot_view(s)),
            r@.map_values(|i: usize| slot_view(specs@[i as int])) == sv.subrange(0, i as int).filter(|s: SlotView| s.flank == f),
            forall|j: int| 0 <= j < r@.len() ==> r@[j] < i,
        decreases specs@.len() - i,
    {
        let ghost before = r@;
        assert(sv.subrange(0, i + 1) == sv.subrange(0, i as int).push(sv[i as int]));
        proof {
            sv.subrange(0, i as int).lemma_filter_push(sv[i as int], |s: SlotView| s.flank == f);
        }
        if specs[i].flank == f {
            r.push(i);
            assert(r@.map_values(|i: usize| slot_view(specs@[i as int])) =~= before.map_values(|i: usize| slot_view(specs@[i as int])).push(sv[i as int]));
        }
        i = i + 1;
    }
    assert(sv.subrange(0, specs@.len() as int) == sv);
    r
}

/// What a command demands of the rest of the message once it matched.
#[derive(Clone, Copy, Debug, PartialEq, Eq, Structural)]
pub enum Strictness {
    /// Commands with arguments: anything may follow.
    Any,
    /// Commands without arguments: only the ways of calling (a reply, `@bot`,
    /// white space) may accompany the command word.
    NoArgs,
    /// Exact commands: the message is the command word and nothing else.
    Exact,
}

/// A message segment, as far as matching reads it. Non-text segments carry
/// their position in the original message, so that callers can map the
/// argument segments back.
pub enum Seg {
    Text(String),
    Reply(usize),
    Mention(Uin, usize),
    Other(usize),
}

/// The plain values of a segment.
pub enum SegView {
    Text(Seq<char>),
    Reply(usize),
    Mention(Uin, usize),
    Other(usize),
}

/// The plain values of a segment.
pub open spec fn seg_view(s: Seg) -> SegView {
    match s {
        Seg::Text(t) => SegView::Text(t@),
        Seg::Reply(i) => SegView::Reply(i),
        Seg::Mention(u, i) => SegView::Mention(u, i),
        Seg::Other(i) => SegView::Other(i),
    }
}

/// The plain values of a list of segments.
pub open spec fn segs_view(v: Seq<Seg>) -> Seq<SegView> {
    v.map_values(|s: Seg| seg_view(s))
}

impl Seg {
    pub(crate) fn duplicate(&self) -> (r: Seg)
        ensures
            seg_view(r) == seg_view(*self),
    {
        match self {
            Seg::Text(t) => Seg::Text(t.clone()),
            Seg::Reply(i) => Seg::Reply(*i),
            Seg::Mention(u, i) => Seg::Mention(*u, *i),
            Seg::Other(i) => Seg::Other(*i),
        }
    }
}

/// An incoming message: whether it is in a group, and its segments.
pub struct MessageView {
    pub in_group: bool,
    pub content: Vec<Seg>,
}

/// A parsed command: the matched command text, the argument segments, their
/// plain text, the capture groups and the named slots.
pub struct ParsedCommand {
    pub command: String,
    pub args: Vec<Seg>,
    pub args_text: String,
    pub captures: Vec<String>,
    pub named_captures: Vec<(String, Option<String>)>,
}

/// The plain values of a parsed command.
pub struct ParsedView {
    pub command: Seq<char>,
    pub args: Seq<SegView>,
    pub args_text: Seq<char>,
    pub captures: Seq<Seq<char>>,
    pub named_captures: Seq<(Seq<char>, Option<Seq<char>>)>,
}

/// An optional string's characters.
pub open spec fn opt_view(o: Option<String>) -> Option<Seq<char>> {
    match o {
        Some(s) => Some(s@),
        None => None,
    }
}

/// The plain values of a parsed command.
pub open spec fn parsed_view(p: ParsedCommand) -> ParsedView {
    ParsedView {
        command: p.command@,
        args: segs_view(p.args@),
        args_text: p.args_text@,
        captures: p.captures@.map_values(|c: String| c@),
        named_captures: p.named_captures@.map_values(|e: (String, Option<String>)| (e.0@, opt_view(e.1))),
    }
}

/// The command trigger: regexes tried in order (the first hit decides), the
/// `@bot` requirements, the usage text and the named slots.
pub struct Matcher {
    patterns: Vec<CompiledPattern>,
    pub mention_me: bool,
    pub to_me_only: bool,
    usage: Option<String>,
    slot_names: Vec<(String, usize)>,
    strictness: Strictness,
}

/// The plain values of a matcher.
pub struct MatcherView {
    pub sources: Seq<Seq<char>>,
    pub mention_me: bool,
    pub to_me_only: bool,
    pub usage: Option<Seq<char>>,
    pub slot_names: Seq<(Seq<char>, usize)>,
    pub strictness: Strictness,
}

impl View for Matcher {
    type V = MatcherView;

    closed spec fn view(&self) -> MatcherView {
        MatcherView {
            sources: self.patterns@.map_values(|p: CompiledPattern| p.source_spec()),
            mention_me: self.mention_me,
            to_me_only: self.to_me_only,
            usage: opt_view(self.usage),
            slot_names: self.slot_names@.map_values(|e: (String, usize)| (e.0@, e.1)),
            strictness: self.strictness,
        }
    }
}

/// A matcher of the given patterns with default settings.
pub open spec fn plain_matcher(sources: Seq<Seq<char>>, slot_names: Seq<(Seq<char>, usize)>) -> MatcherView {
    MatcherView {
        sources,
        mention_me: false,
        to_me_only: false,
        usage: None,
        slot_names,
        strictness: Strictness::Any,
    }
}

proof fn lemma_fold_mono(st: SlotState, specs: Seq<SlotView>)
    ensures
        slots_fold(st, specs).groups >= st.groups,
    decreases specs.len(),
{
    if specs.len() > 0 {
        lemma_groups_nonneg(specs[0].src, false);
        lemma_fold_mono(slot_step(st, specs[0]), specs.subrange(1, specs.len() as int));
    }
}

impl Matcher {
    /// A literal command trigger: the words compile to `^(?:a|b)(?:\s|$)`. With
    /// no words it never hits (not even an empty text); a pattern the regex
    /// crate refused (escaped literals never are) matches nothing either.
    pub fn command(alts: &[String]) -> (m: Matcher)
        ensures
            m@ == plain_matcher(
                if alts@.len() > 0 && regex_compiles(command_pattern_spec(alts@.map_values(|a: String| a@))) {
                    seq![command_pattern_spec(alts@.map_values(|a: String| a@))]
                } else {
                    Seq::<Seq<char>>::empty()
                },
                Seq::empty(),
            ),
    {
        let pat = command_pattern(alts);
        let mut patterns: Vec<CompiledPattern> = Vec::new();
        if alts.len() > 0 {
            match compile(pat.as_str()) {
                Ok(cp) => {
                    patterns.push(cp);
                },
                Err(_) => {},
            }
        }
        let m = Matcher {
            patterns,
            mention_me: false,
            to_me_only: false,
            usage: None,
            slot_names: Vec::new(),
            strictness: Strictness::Any,
        };
        assert(m@.sources =~= if alts@.len() > 0 && regex_compiles(pat@) { seq![pat@] } else { Seq::<Seq<char>>::empty() });
        assert(m@.slot_names =~= Seq::<(Seq<char>, usize)>::empty());
        m
    }

    /// A raw regex trigger; the regex crate's error when it refuses the pattern.
    pub fn regex(re: &str) -> (r: Result<Matcher, regex::Error>)
        ensures
            r is Ok <==> regex_compiles(re@),
            r matches Ok(m) ==> m@ == plain_matcher(seq![re@], Seq::empty()),
    {
        let cp = compile(re)?;
        let mut patterns: Vec<CompiledPattern> = Vec::new();
        patterns.push(cp);
        let m = Matcher {
            patterns,
            mention_me: false,
            to_me_only: false,
            usage: None,
            slot_names: Vec::new(),
            strictness: Strictness::Any,
        };
        assert(m@.sources =~= seq![re@]);
        assert(m@.slot_names =~= Seq::<(Seq<char>, usize)>::empty());
        Ok(m)
    }

    /// A slot program compiled into one anchored regex (see [`slots_program`]);
    /// the regex crate's error when it refuses the pattern.
    pub fn slots(specs: Vec<SlotSpec>) -> (r: Result<Matcher, regex::Error>)
        requires
            slots_program(specs@.map_values(|s: SlotSpec| slot_view(s))).groups <= usize::MAX,
        ensures
            r is Ok <==> regex_compiles(slots_program(specs@.map_values(|s: SlotSpec| slot_view(s))).pat),
            r matches Ok(m) ==> m@ == plain_matcher(
                seq![slots_program(specs@.map_values(|s: SlotSpec| slot_view(s))).pat],
                slots_program(specs@.map_values(|s: SlotSpec| slot_view(s))).names.map_values(
                    |e: (Seq<char>, int)| (e.0, e.1 as usize),
                ),
            ),
    {
        let ghost sv = specs@.map_values(|s: SlotSpec| slot_view(s));
        let ghost prog = program_order(sv);
        let pre = flank_of(&specs, Flank::Pre);
        let whole = flank_of(&specs, Flank::Whole);
        let post = flank_of(&specs, Flank::Post);
        let mut order: Vec<usize> = Vec::new();
        let mut t: usize = 0;
        while t < pre.len()
            invariant
                t <= pre@.len(),
                forall|j: int| 0 <= j < pre@.len() ==> pre@[j] < specs@.len(),
                forall|j: int| 0 <= j < order@.len() ==> order@[j] < specs@.len(),
                order@ == pre@.subrange(0, t as int),
            decreases pre@.len() - t,
        {
            order.push(pre[t]);
            t = t + 1;
        }
        assert(pre@.subrange(0, pre@.len() as int) == pre@);
        let ghost n1 = order@.len();
        t = 0;
        while t < whole.len()
            invariant
                t <= whole@.len(),
                n1 == pre@.len(),
                forall|j: int| 0 <= j < whole@.len() ==> whole@[j] < specs@.len(),
                forall|j: int| 0 <= j < order@.len() ==> order@[j] < specs@.len(),
                order@ == pre@ + whole@.subrange(0, t as int),
            decreases whole@.len() - t,
        {
            order.push(whole[t]);
            t = t + 1;
        }
        assert(whole@.subrange(0, whole@.len() as int) == whole@);
        t = 0;
        while t < post.len()
            invariant
                t <= post@.len(),
                forall|j: int| 0 <= j < post@.len() ==> post@[j] < specs@.len(),
                forall|j: int| 0 <= j < order@.len() ==> order@[j] < specs@.len(),
                order@ == pre@ + whole@ + post@.subrange(0, t as int),
            decreases post@.len() - t,
        {
            order.push(post[t]);
            t = t + 1;
        }
        assert(post@.subrange(0, post@.len() as int) == post@);
        assert(order@.map_values(|i: usize| slot_view(specs@[i as int])) =~= prog);
        let mut pat = String::new();
        push_char(&mut pat, '^');
        let mut names: Vec<(String, usize)> = Vec::new();
        let mut groups: usize = 0;
        let ghost init = SlotState { pat: seq!['^'], names: Seq::empty(), groups: 0 };
        let mut i: usize = 0;
        assert(names@.map_values(|e: (String, usize)| (e.0@, e.1 as int)) =~= Seq::<(Seq<char>, int)>::empty());
        while i < order.len()
            invariant
                i <= order@.len(),
                forall|j: int| 0 <= j < order@.len() ==> order@[j] < specs@.len(),
                order@.map_values(|i: usize| slot_view(specs@[i as int])) == prog,
                sv == specs@.map_values(|s: SlotSpec| slot_view(s)),
                prog == program_order(sv),
                slots_fold(init, prog).groups <= usize::MAX,
                slots_fold(init, prog.subrange(0, i as int)) == (SlotState {
                    pat: pat@,
                    names: names@.map_values(|e: (String, usize)| (e.0@, e.1 as int)),
                    groups: groups as int,
                }),
            decreases order@.len() - i,
        {
            let ghost st = slots_fold(init, prog.subrange(0, i as int));
            assert(prog[i as int] == slot_view(specs@[order@[i as int] as int]));
            proof {
                lemma_fold_append(init, prog.subrange(0, i + 1), prog.subrange(i + 1, prog.len() as int));
                assert(prog.subrange(0, i + 1) + prog.subrange(i + 1, prog.len() as int) == prog);
                lemma_fold_mono(slots_fold(init, prog.subrange(0, i + 1)), prog.subrange(i + 1, prog.len() as int));
                assert(prog.subrange(0, i + 1) == prog.subrange(0, i as int).push(prog[i as int]));
                lemma_fold_push(init, prog.subrange(0, i as int), prog[i as int]);
            }
            add_slot(&mut pat, &mut names, &mut groups, &specs[order[i]]);
            i = i + 1;
        }
        assert(prog.subrange(0, order@.len() as int) == prog);
        let cp = compile(pat.as_str())?;
        let mut patterns: Vec<CompiledPattern> = Vec::new();
        patterns.push(cp);
        let m = Matcher { patterns, mention_me: false, to_me_only: false, usage: None, slot_names: names, strictness: Strictness::Any };
        assert(m@.sources =~= seq![pat@]);
        assert(m@.slot_names =~= slots_program(sv).names.map_values(|e: (Seq<char>, int)| (e.0, e.1 as usize)));
        Ok(m)
    }
}

impl Matcher {
    /// Carries an explicit usage text, replied on a failed argument parse.
    pub fn with_usage(self, usage: &str) -> (m: Matcher)
        ensures
            m@ == (MatcherView { usage: Some(usage@), ..self@ }),
    {
        Matcher { usage: Some(usage.to_owned()), ..self }
    }

    /// Requires the bot to be addressed (`@bot` or a private chat) and drops a
    /// leading `/` from the text.
    pub fn mention_me(self) -> (m: Matcher)
        ensures
            m@ == (MatcherView { mention_me: true, to_me_only: true, ..self@ }),
    {
        Matcher { mention_me: true, to_me_only: true, ..self }
    }

    /// Requires the bot to be addressed, without touching the text.
    pub fn to_me(self) -> (m: Matcher)
        ensures
            m@ == (MatcherView { to_me_only: true, ..self@ }),
    {
        Matcher { to_me_only: true, ..self }
    }

    /// The default of commands without arguments: only the ways of calling
    /// may accompany the command word.
    pub fn no_args(self) -> (m: Matcher)
        ensures
            m@ == (MatcherView { strictness: Strictness::NoArgs, ..self@ }),
    {
        Matcher { strictness: Strictness::NoArgs, ..self }
    }

    /// Strict: the whole message is the command word.
    pub fn exact(self) -> (m: Matcher)
        ensures
            m@ == (MatcherView { strictness: Strictness::Exact, ..self@ }),
    {
        Matcher { strictness: Strictness::Exact, ..self }
    }
}

/// `s` mentions the bot.
pub open spec fn mentions_self(s: SegView, self_id: Uin) -> bool {
    s matches SegView::Mention(u, _) && u == self_id
}

/// 1 when the message starts with a reply.
pub open spec fn reply_prefix(c: Seq<SegView>) -> int {
    if c.len() > 0 && c[0] is Reply { 1 } else { 0 }
}

/// How many leading `@bot` mentions (at most two) follow the reply prefix.
pub open spec fn stripped_count(c: Seq<SegView>, self_id: Uin) -> int {
    let rp = reply_prefix(c);
    if rp < c.len() && mentions_self(c[rp], self_id) {
        if rp + 1 < c.len() && mentions_self(c[rp + 1], self_id) { 2 } else { 1 }
    } else {
        0
    }
}

/// The segments with the leading `@bot` mentions cut out (a reply before them stays).
pub open spec fn without_mentions(c: Seq<SegView>, self_id: Uin) -> Seq<SegView> {
    let rp = reply_prefix(c);
    c.subrange(0, rp) + c.subrange(rp + stripped_count(c, self_id), c.len() as int)
}

/// `i` is the first text segment of `segs` (or `segs.len()` when there is none).
pub open spec fn is_first_text(segs: Seq<SegView>, i: int) -> bool {
    &&& 0 <= i <= segs.len()
    &&& forall|j: int| 0 <= j < i ==> !(segs[j] is Text)
    &&& i < segs.len() ==> segs[i] is Text
}

/// The first text segment's position.
pub open spec fn first_text(segs: Seq<SegView>) -> int {
    choose|i: int| is_first_text(segs, i)
}

/// `s` without its leading `/`s.
pub open spec fn trim_slashes(s: Seq<char>) -> Seq<char>
    decreases s.len(),
{
    if s.len() > 0 && s[0] == '/' { trim_slashes(s.subrange(1, s.len() as int)) } else { s }
}

/// The text the regex runs on: the first text segment, its leading white space
/// dropped (and for `mention_me` also leading `/`s and the white space after).
pub open spec fn match_text(segs: Seq<SegView>, fti: int, mention_me: bool) -> Seq<char> {
    let raw = if fti < segs.len() {
        match segs[fti] {
            SegView::Text(t) => t,
            _ => Seq::empty(),
        }
    } else {
        Seq::empty()
    };
    if mention_me {
        trim_ws_start(trim_slashes(trim_ws_start(raw)))
    } else {
        trim_ws_start(raw)
    }
}

/// The first pattern that matches `text`, with its match.
pub open spec fn first_hit(sources: Seq<Seq<char>>, text: Seq<char>) -> Option<CaptureView>
    decreases sources.len(),
{
    if sources.len() == 0 {
        None
    } else {
        match regex_captures(sources[0], text) {
            Some(c) => Some(c),
            None => first_hit(sources.subrange(1, sources.len() as int), text),
        }
    }
}

/// The argument segments: what preceded the command text, the remaining text
/// (when non-empty), and every segment after the command text.
pub open spec fn splice(segs: Seq<SegView>, fti: int, remainder: Seq<char>) -> Seq<SegView> {
    let rest_start = if fti + 1 < segs.len() { fti + 1 } else { segs.len() as int };
    segs.subrange(0, fti) + (if remainder.len() > 0 { seq![SegView::Text(remainder)] } else { Seq::empty() })
        + segs.subrange(rest_start, segs.len() as int)
}

/// The plain text of segments: their text segments, concatenated.
pub open spec fn text_of(segs: Seq<SegView>) -> Seq<char>
    decreases segs.len(),
{
    if segs.len() == 0 {
        Seq::empty()
    } else {
        text_of(segs.drop_last()) + match segs.last() {
            SegView::Text(t) => t,
            _ => Seq::empty(),
        }
    }
}

/// An argument segment that counts as content for a no-argument command
/// (replies and `@bot` do not; blank text does not).
pub open spec fn is_content(s: SegView, self_id: Uin) -> bool {
    match s {
        SegView::Reply(_) => false,
        SegView::Mention(u, _) => u != self_id,
        SegView::Text(t) => trim_spec(t).len() > 0,
        SegView::Other(_) => true,
    }
}

/// An argument segment that an exact command does not tolerate (anything but
/// blank text).
pub open spec fn is_extra(s: SegView) -> bool {
    match s {
        SegView::Text(t) => trim_spec(t).len() > 0,
        _ => true,
    }
}

/// Whether the rest of the message blocks the hit.
pub open spec fn blocked(strictness: Strictness, remainder: Seq<char>, args: Seq<SegView>, self_id: Uin) -> bool {
    match strictness {
        Strictness::Any => false,
        Strictness::NoArgs => remainder.len() > 0 || exists|i: int| 0 <= i < args.len() && is_content(args[i], self_id),
        Strictness::Exact => remainder.len() > 0 || exists|i: int| 0 <= i < args.len() && is_extra(args[i]),
    }
}

/// The value of slot group `gi` (1-based) of a match.
pub open spec fn group_value(groups: Seq<Option<Seq<char>>>, gi: usize) -> Option<Seq<char>> {
    if 1 <= gi && gi <= groups.len() { groups[gi - 1] } else { None }
}

/// The outcome of matching a message: `None` when it is not addressed as
/// required, when no pattern matches, or when the rest of the message blocks
/// the hit; otherwise the parsed command and the usage text to carry.
pub open spec fn match_spec(m: MatcherView, msg_in_group: bool, content: Seq<SegView>, self_id: Uin) -> Option<(ParsedView, Option<Seq<char>>)> {
    let k = stripped_count(content, self_id);
    let to_me = !msg_in_group || k > 0;
    let segs = without_mentions(content, self_id);
    let fti = first_text(segs);
    let text = match_text(segs, fti, m.mention_me);
    if m.to_me_only && !to_me {
        None
    } else {
        match first_hit(m.sources, text) {
            None => None,
            Some(c) => {
                let remainder = trim_spec(c.before + c.after);
                let args = splice(segs, fti, remainder);
                if blocked(m.strictness, remainder, args, self_id) {
                    None
                } else {
                    Some((
                        ParsedView {
                            command: trim_spec(c.whole),
                            args,
                            args_text: text_of(args),
                            captures: c.groups.map_values(|g: Option<Seq<char>>| match g {
                                Some(x) => x,
                                None => Seq::empty(),
                            }),
                            named_captures: m.slot_names.map_values(|e: (Seq<char>, usize)| (e.0, group_value(c.groups, e.1))),
                        },
                        m.usage,
                    ))
                }
            },
        }
    }
}

fn copy_segs(v: &Vec<Seg>, from: usize, to: usize, out: &mut Vec<Seg>)
    requires
        from <= to <= v@.len(),
    ensures
        segs_view(final(out)@) == segs_view(old(out)@) + segs_view(v@).subrange(from as int, to as int),
{
    let ghost base = segs_view(out@);
    let mut i = from;
    while i < to
        invariant
            from <= i <= to <= v@.len(),
            segs_view(out@) == base + segs_view(v@).subrange(from as int, i as int),
        decreases to - i,
    {
        let ghost before = out@;
        out.push(v[i].duplicate());
        assert(segs_view(out@) =~= segs_view(before).push(seg_view(v@[i as int])));
        assert(segs_view(v@).subrange(from as int, i + 1) =~= segs_view(v@).subrange(from as int, i as int).push(seg_view(v@[i as int])));
        i = i + 1;
    }
}

fn is_reply(s: &Seg) -> (r: bool)
    ensures
        r == (seg_view(*s) is Reply),
{
    match s {
        Seg::Reply(_) => true,
        _ => false,
    }
}

fn is_self_mention(s: &Seg, self_id: Uin) -> (r: bool)
    ensures
        r == mentions_self(seg_view(*s), self_id),
{
    match s {
        Seg::Mention(u, _) => u.0 == self_id.0,
        _ => false,
    }
}

/// The segments with the leading `@bot` mentions cut out, and how many were.
fn strip_mentions(content: &Vec<Seg>, self_id: Uin) -> (r: (Vec<Seg>, usize))
    ensures
        segs_view(r.0@) == without_mentions(segs_view(content@), self_id),
        r.1 == stripped_count(segs_view(content@), self_id),
{
    let ghost c = segs_view(content@);
    let n = content.len();
    let rp: usize = if n > 0 && is_reply(&content[0]) { 1 } else { 0 };
    assert(rp == reply_prefix(c));
    let mut k: usize = 0;
    if rp < n && is_self_mention(&content[rp], self_id) {
        k = 1;
        if rp + 1 < n && is_self_mention(&content[rp + 1], self_id) {
            k = 2;
        }
    }
    let mut out: Vec<Seg> = Vec::new();
    assert(segs_view(out@) =~= Seq::<SegView>::empty());
    copy_segs(content, 0, rp, &mut out);
    copy_segs(content, rp + k, n, &mut out);
    (out, k)
}

proof fn lemma_first_text_witness(segs: Seq<SegView>, k: int) -> (i: int)
    requires
        0 <= k <= segs.len(),
        forall|j: int| 0 <= j < k ==> !(segs[j] is Text),
    ensures
        is_first_text(segs, i),
    decreases segs.len() - k,
{
    if k == segs.len() || segs[k] is Text {
        k
    } else {
        lemma_first_text_witness(segs, k + 1)
    }
}

proof fn lemma_first_text_unique(segs: Seq<SegView>, i: int)
    requires
        is_first_text(segs, i),
    ensures
        first_text(segs) == i,
{
    let c = choose|c: int| is_first_text(segs, c);
    assert(is_first_text(segs, c));
    if c < i {
        assert(!(segs[c] is Text));
    }
    if i < c {
        assert(!(segs[i] is Text));
    }
}

fn is_text(s: &Seg) -> (r: bool)
    ensures
        r == (seg_view(*s) is Text),
{
    match s {
        Seg::Text(_) => true,
        _ => false,
    }
}

fn find_first_text(segs: &Vec<Seg>) -> (r: usize)
    ensures
        r == first_text(segs_view(segs@)),
        is_first_text(segs_view(segs@), r as int),
{
    let ghost v = segs_view(segs@);
    let mut i: usize = 0;
    while i < segs.len() && !is_text(&segs[i])
        invariant
            i <= segs@.len(),
            v == segs_view(segs@),
            forall|j: int| 0 <= j < i ==> !(v[j] is Text),
        decreases segs@.len() - i,
    {
        i = i + 1;
    }
    proof {
        lemma_first_text_unique(v, i as int);
    }
    i
}

fn trim_start_string(t: &str) -> (r: String)
    ensures
        r@ == trim_ws_start(t@),
{
    let n = t.unicode_len();
    let q = crate::text::skip_ws(t, 0);
    assert(t@.subrange(0, n as int) == t@);
    t.substring_char(q, n).to_owned()
}

fn drop_slashes(t: &str) -> (r: String)
    ensures
        r@ == trim_slashes(t@),
{
    let n = t.unicode_len();
    let mut q: usize = 0;
    assert(t@.subrange(0, n as int) == t@);
    while q < n && t.get_char(q) == '/'
        invariant
            n == t@.len(),
            q <= n,
            trim_slashes(t@) == trim_slashes(t@.subrange(q as int, n as int)),
        decreases n - q,
    {
        assert(t@.subrange(q + 1, n as int) == t@.subrange(q as int, n as int).subrange(1, (n - q) as int));
        q = q + 1;
    }
    let r = t.substring_char(q, n).to_owned();
    assert(trim_slashes(r@) == r@);
    r
}

fn text_for_match(segs: &Vec<Seg>, fti: usize, mention_me: bool) -> (r: String)
    requires
        fti <= segs@.len(),
    ensures
        r@ == match_text(segs_view(segs@), fti as int, mention_me),
{
    let raw: String = if fti < segs.len() {
        match &segs[fti] {
            Seg::Text(t) => t.clone(),
            _ => String::new(),
        }
    } else {
        String::new()
    };
    let a = trim_start_string(raw.as_str());
    if mention_me {
        let b = drop_slashes(a.as_str());
        trim_start_string(b.as_str())
    } else {
        a
    }
}

fn splice_args(segs: &Vec<Seg>, fti: usize, remainder: &String) -> (r: Vec<Seg>)
    requires
        fti <= segs@.len(),
    ensures
        segs_view(r@) == splice(segs_view(segs@), fti as int, remainder@),
{
    let mut out: Vec<Seg> = Vec::new();
    assert(segs_view(out@) =~= Seq::<SegView>::empty());
    copy_segs(segs, 0, fti, &mut out);
    let ghost mid = segs_view(out@);
    if remainder.as_str().unicode_len() > 0 {
        out.push(Seg::Text(remainder.clone()));
        assert(segs_view(out@) =~= mid + seq![SegView::Text(remainder@)]);
    } else {
        assert(mid + Seq::<SegView>::empty() == mid);
    }
    let rest_start = if fti < segs.len() { fti + 1 } else { segs.len() };
    copy_segs(segs, rest_start, segs.len(), &mut out);
    out
}

fn args_text(args: &Vec<Seg>) -> (r: String)
    ensures
        r@ == text_of(segs_view(args@)),
{
    let ghost v = segs_view(args@);
    let mut out = String::new();
    let mut i: usize = 0;
    while i < args.len()
        invariant
            i <= args@.len(),
            v == segs_view(args@),
            out@ == text_of(v.subrange(0, i as int)),
        decreases args@.len() - i,
    {
        assert(v.subrange(0, i + 1).drop_last() == v.subrange(0, i as int));
        match &args[i] {
            Seg::Text(t) => {
                out.append(t.as_str());
            },
            _ => {
                assert(out@ + Seq::<char>::empty() == out@);
            },
        }
        i = i + 1;
    }
    assert(v.subrange(0, args@.len() as int) == v);
    out
}

fn is_blocked(strictness: Strictness, remainder: &String, args: &Vec<Seg>, self_id: Uin) -> (r: bool)
    ensures
        r == blocked(strictness, remainder@, segs_view(args@), self_id),
        strictness == Strictness::NoArgs && (exists|i: int, u: Uin, n: usize| 0 <= i < args@.len()
            && seg_view(args@[i]) == SegView::Mention(u, n) && u != self_id) ==> r,
{
    let ghost v = segs_view(args@);
    match strictness {
        Strictness::Any => false,
        _ => {
            if remainder.as_str().unicode_len() > 0 {
                return true;
            }
            let mut i: usize = 0;
            while i < args.len()
                invariant
                    i <= args@.len(),
                    v == segs_view(args@),
                    strictness != Strictness::Any,
                    forall|j: int| 0 <= j < i ==> !(if strictness == Strictness::NoArgs { is_content(v[j], self_id) } else { is_extra(v[j]) }),
                decreases args@.len() - i,
            {
                let hit = match &args[i] {
                    Seg::Text(t) => {
                        let tt = trim(t.as_str());
                        tt.as_str().unicode_len() > 0
                    },
                    Seg::Reply(_) => strictness == Strictness::Exact,
                    Seg::Mention(u, _) => strictness == Strictness::Exact || u.0 != self_id.0,
                    Seg::Other(_) => true,
                };
                if hit {
                    assert(if strictness == Strictness::NoArgs { is_content(v[i as int], self_id) } else { is_extra(v[i as int]) });
                    return true;
                }
                i = i + 1;
            }
            proof {
                if strictness == Strictness::NoArgs && (exists|i: int, u: Uin, n: usize| 0 <= i < args@.len()
                    && seg_view(args@[i]) == SegView::Mention(u, n) && u != self_id) {
                    let (k, u, n) = choose|i: int, u: Uin, n: usize| 0 <= i < args@.len()
                        && seg_view(args@[i]) == SegView::Mention(u, n) && u != self_id;
                    assert(v[k] == seg_view(args@[k]));
                    assert(is_content(v[k], self_id));
                }
            }
            false
        },
    }
}

impl Matcher {
    fn named_values(&self, groups: &Vec<Option<String>>) -> (r: Vec<(String, Option<String>)>)
        ensures
            r@.map_values(|e: (String, Option<String>)| (e.0@, opt_view(e.1))) == self@.slot_names.map_values(
                |e: (Seq<char>, usize)| (e.0, group_value(groups@.map_values(|g: Option<String>| opt_view(g)), e.1)),
            ),
    {
        let ghost gv = groups@.map_values(|g: Option<String>| opt_view(g));
        let ghost sn = self@.slot_names;
        let ghost f = |e: (Seq<char>, usize)| (e.0, group_value(gv, e.1));
        let mut out: Vec<(String, Option<String>)> = Vec::new();
        let mut i: usize = 0;
        while i < self.slot_names.len()
            invariant
                i <= self.slot_names@.len(),
                sn == self@.slot_names,
                sn == self.slot_names@.map_values(|e: (String, usize)| (e.0@, e.1)),
                gv == groups@.map_values(|g: Option<String>| opt_view(g)),
                f == (|e: (Seq<char>, usize)| (e.0, group_value(gv, e.1))),
                out@.map_values(|e: (String, Option<String>)| (e.0@, opt_view(e.1))) == sn.subrange(0, i as int).map_values(f),
            decreases self.slot_names@.len() - i,
        {
            let gi = self.slot_names[i].1;
            let val: Option<String> = if gi >= 1 && gi <= groups.len() {
                match &groups[gi - 1] {
                    Some(x) => Some(x.clone()),
                    None => None,
                }
            } else {
                None
            };
            let ghost before = out@;
            out.push((self.slot_names[i].0.clone(), val));
            assert(out@.map_values(|e: (String, Option<String>)| (e.0@, opt_view(e.1))) =~= before.map_values(
                |e: (String, Option<String>)| (e.0@, opt_view(e.1)),
            ).push(f(sn[i as int])));
            assert(sn.subrange(0, i + 1).map_values(f) =~= sn.subrange(0, i as int).map_values(f).push(f(sn[i as int])));
            i = i + 1;
        }
        assert(sn.subrange(0, sn.len() as int) == sn);
        out
    }

    fn find_hit(&self, text: &String) -> (r: Option<Captured>)
        ensures
            match r {
                Some(c) => first_hit(self@.sources, text@) == Some(captured_view(c)),
                None => first_hit(self@.sources, text@) is None,
            },
    {
        let ghost sources = self@.sources;
        let mut i: usize = 0;
        assert(sources.subrange(0, sources.len() as int) == sources);
        while i < self.patterns.len()
            invariant
                i <= self.patterns@.len(),
                sources == self@.sources,
                sources == self.patterns@.map_values(|p: CompiledPattern| p.source_spec()),
                first_hit(sources, text@) == first_hit(sources.subrange(i as int, sources.len() as int), text@),
            decreases self.patterns@.len() - i,
        {
            let ghost rest = sources.subrange(i as int, sources.len() as int);
            assert(rest[0] == self.patterns@[i as int].source_spec());
            assert(rest.subrange(1, rest.len() as int) == sources.subrange(i + 1, sources.len() as int));
            match find_captures(&self.patterns[i], text.as_str()) {
                Some(c) => {
                    return Some(c);
                },
                None => {},
            }
            i = i + 1;
        }
        assert(sources.subrange(i as int, sources.len() as int) =~= Seq::<Seq<char>>::empty());
        None
    }

    /// Runs the matcher on a message (see [`match_spec`]): `None` when it does
    /// not hit; otherwise the parsed command and the usage text to carry.
    pub fn match_event(&self, msg: &MessageView, self_id: Uin) -> (r: Option<(ParsedCommand, Option<String>)>)
        ensures
            match r {
                Some((p, u)) => match_spec(self@, msg.in_group, segs_view(msg.content@), self_id) == Some((parsed_view(p), opt_view(u))),
                None => match_spec(self@, msg.in_group, segs_view(msg.content@), self_id) is None,
            },
    {
        let (segs, k) = strip_mentions(&msg.content, self_id);
        let to_me = !msg.in_group || k > 0;
        if self.to_me_only && !to_me {
            return None;
        }
        let fti = find_first_text(&segs);
        let text = text_for_match(&segs, fti, self.mention_me);
        let c = match self.find_hit(&text) {
            Some(c) => c,
            None => return None,
        };
        let whole = trim(c.whole.as_str());
        let mut around = c.before.clone();
        around.append(c.after.as_str());
        let remainder = trim(around.as_str());
        let args = splice_args(&segs, fti, &remainder);
        if is_blocked(self.strictness, &remainder, &args, self_id) {
            return None;
        }
        let ghost gv = c.groups@.map_values(|g: Option<String>| opt_view(g));
        assert(gv =~= captured_view(c).groups);
        let mut captures: Vec<String> = Vec::new();
        let mut j: usize = 0;
        while j < c.groups.len()
            invariant
                j <= c.groups@.len(),
                gv == c.groups@.map_values(|g: Option<String>| opt_view(g)),
                captures@.map_values(|x: String| x@) == gv.subrange(0, j as int).map_values(
                    |g: Option<Seq<char>>| match g {
                        Some(x) => x,
                        None => Seq::<char>::empty(),
                    },
                ),
            decreases c.groups@.len() - j,
        {
            let ghost before = captures@;
            let v: String = match &c.groups[j] {
                Some(x) => x.clone(),
                None => String::new(),
            };
            captures.push(v);
            assert(captures@.map_values(|x: String| x@) =~= before.map_values(|x: String| x@).push(
                match gv[j as int] {
                    Some(x) => x,
                    None => Seq::<char>::empty(),
                },
            ));
            assert(gv.subrange(0, j + 1).map_values(
                |g: Option<Seq<char>>| match g {
                    Some(x) => x,
                    None => Seq::<char>::empty(),
                },
            ) =~= gv.subrange(0, j as int).map_values(
                |g: Option<Seq<char>>| match g {
                    Some(x) => x,
                    None => Seq::<char>::empty(),
                },
            ).push(
                match gv[j as int] {
                    Some(x) => x,
                    None => Seq::<char>::empty(),
                },
            ));
            j = j + 1;
        }
        assert(gv.subrange(0, c.groups@.len() as int) == gv);
        let named_captures = self.named_values(&c.groups);
        let args_text = args_text(&args);
        let usage = match &self.usage {
            Some(u) => Some(u.clone()),
            None => None,
        };
        let p = ParsedCommand { command: whole, args, args_text, captures, named_captures };
        let ghost spec_r = match_spec(self@, msg.in_group, segs_view(msg.content@), self_id);
        assert(spec_r matches Some((pv, uv)) && pv.command == parsed_view(p).command && pv.args == parsed_view(p).args
            && pv.args_text == parsed_view(p).args_text && pv.captures == parsed_view(p).captures
            && pv.named_captures == parsed_view(p).named_captures && uv == opt_view(usage));
        Some((p, usage))
    }
}

/// A matcher without patterns (a command with no words) never hits.
pub proof fn law_no_words_never_hit(m: MatcherView, in_group: bool, content: Seq<SegView>, self_id: Uin)
    requires
        m.sources.len() == 0,
    ensures
        match_spec(m, in_group, content, self_id) is None,
{
}

/// A no-argument command hits only when nothing is left to be an argument:
/// no text remains after the command, and every argument segment is a reply,
/// an `@bot` mention or blank text. In particular a mention of anyone but the
/// bot, or any other segment, keeps it from hitting.
pub proof fn law_no_args_hit_has_no_arguments(m: MatcherView, in_group: bool, content: Seq<SegView>, self_id: Uin)
    requires
        m.strictness == Strictness::NoArgs,
        match_spec(m, in_group, content, self_id) is Some,
    ensures
        ({
            let args = match_spec(m, in_group, content, self_id)->Some_0.0.args;
            forall|i: int, u: Uin, n: usize| 0 <= i < args.len() && args[i] == SegView::Mention(u, n) ==> u == self_id
        }),
        ({
            let args = match_spec(m, in_group, content, self_id)->Some_0.0.args;
            forall|i: int| 0 <= i < args.len() ==> match #[trigger] args[i] {
                SegView::Reply(_) => true,
                SegView::Mention(u, _) => u == self_id,
                SegView::Text(t) => trim_spec(t).len() == 0,
                SegView::Other(_) => false,
            }
        }),
{
    let args = match_spec(m, in_group, content, self_id)->Some_0.0.args;
    assert forall|i: int| 0 <= i < args.len() implies match #[trigger] args[i] {
        SegView::Reply(_) => true,
        SegView::Mention(u, _) => u == self_id,
        SegView::Text(t) => trim_spec(t).len() == 0,
        SegView::Other(_) => false,
    } by {
        assert(!is_content(args[i], self_id));
    }
    assert forall|i: int, u: Uin, n: usize| 0 <= i < args.len() && args[i] == SegView::Mention(u, n) implies u == self_id by {
        assert(!is_content(args[i], self_id));
    }
}

/// A message whose arguments would hold a mention of someone other than the
/// bot never hits a no-argument command.
pub proof fn law_no_args_refuses_foreign_mention(
    m: MatcherView,
    in_group: bool,
    content: Seq<SegView>,
    self_id: Uin,
    i: int,
    u: Uin,
    n: usize,
)
    requires
        m.strictness == Strictness::NoArgs,
        u != self_id,
        ({
            let segs = without_mentions(content, self_id);
            let fti = first_text(segs);
            0 <= i < segs.len() && segs[i] == SegView::Mention(u, n)
        }),
    ensures
        match_spec(m, in_group, content, self_id) is None,
{
    let segs = without_mentions(content, self_id);
    let fti = first_text(segs);
    let text = match_text(segs, fti, m.mention_me);
    let w = lemma_first_text_witness(segs, 0);
    assert(is_first_text(segs, fti));
    if let Some(c) = first_hit(m.sources, text) {
        let remainder = trim_spec(c.before + c.after);
        let args = splice(segs, fti, remainder);
        if remainder.len() == 0 {
            let rest_start = if fti + 1 < segs.len() { fti + 1 } else { segs.len() as int };
            if i < fti {
                assert(args[i] == segs[i]);
                assert(is_content(args[i], self_id));
            } else {
                assert(args[i - 1] == segs[i]);
                assert(is_content(args[i - 1], self_id));
            }
        }
    }
}

/// An exact command hits only when every argument segment is blank text.
pub proof fn law_exact_hit_has_only_blank_text(m: MatcherView, in_group: bool, content: Seq<SegView>, self_id: Uin)
    requires
        m.strictness == Strictness::Exact,
        match_spec(m, in_group, content, self_id) is Some,
    ensures
        ({
            let args = match_spec(m, in_group, content, self_id)->Some_0.0.args;
            forall|i: int| 0 <= i < args.len() ==> (#[trigger] args[i] matches SegView::Text(t) && trim_spec(t).len() == 0)
        }),
{
    let args = match_spec(m, in_group, content, self_id)->Some_0.0.args;
    assert forall|i: int| 0 <= i < args.len() implies (#[trigger] args[i] matches SegView::Text(t) && trim_spec(t).len() == 0) by {
        assert(!is_extra(args[i]));
    }
}

} // verus!
