//! The slot sequence of a typed command head: an ordered list of literal
//! blocks and named capture blocks. From it come the slot program of the
//! matcher (blocks joined by a separator pattern), the concrete command words
//! for help (the cartesian product of the literals and the required
//! alternatives), the usage synopsis and the argument lines.
use vstd::prelude::*;
use crate::matcher::{escape_spec, regex_escape, Flank, SlotSpec, SlotView, slot_view};
use crate::text::{decimal, push_nat, str_eq};

verus! {

/// Where a capture block's pattern comes from.
pub enum SlotSource {
    /// A raw pattern fragment.
    Re(String),
    /// Literal alternatives (each escaped, joined by `|`).
    Union(Vec<String>),
    /// A greedy tail.
    Tail,
}

/// A capture field of the slot struct.
pub struct SlotField {
    /// The field's identifier (the key of its named captures).
    pub ident: String,
    /// The display name, if set (else the identifier).
    pub name: Option<String>,
    /// The argument description, if set.
    pub desc: Option<String>,
    /// Whether the block may be absent.
    pub optional: bool,
    pub src: SlotSource,
    /// The number of tuple elements for a multi-group field, 0 for a single capture.
    pub tuple_len: usize,
}

/// A block of the sequence: a literal, or the capture of a field (by index).
pub enum Block {
    Lit(String),
    Field(usize),
}

/// `parts` joined by `sep`.
pub open spec fn join_spec(parts: Seq<Seq<char>>, sep: Seq<char>) -> Seq<char>
    decreases parts.len(),
{
    if parts.len() == 0 {
        Seq::empty()
    } else if parts.len() == 1 {
        parts[0]
    } else {
        join_spec(parts.drop_last(), sep) + sep + parts.last()
    }
}

/// Joins `parts` with `sep` between them.
pub fn join(parts: &Vec<String>, sep: &str) -> (r: String)
    ensures
        r@ == join_spec(parts@.map_values(|p: String| p@), sep@),
{
    let ghost pv = parts@.map_values(|p: String| p@);
    let mut out = String::new();
    let mut i: usize = 0;
    assert(pv.subrange(0, 0) =~= Seq::<Seq<char>>::empty());
    while i < parts.len()
        invariant
            i <= parts@.len(),
            pv == parts@.map_values(|p: String| p@),
            out@ == join_spec(pv.subrange(0, i as int), sep@),
        decreases parts@.len() - i,
    {
        let ghost next = pv.subrange(0, i + 1);
        assert(next.drop_last() =~= pv.subrange(0, i as int));
        assert(next.last() == parts@[i as int]@);
        if i > 0 {
            out.append(sep);
        } else {
            assert(out@ =~= Seq::<char>::empty());
        }
        out.append(parts[i].as_str());
        if i == 0 {
            assert(next =~= seq![parts@[0]@]);
            assert(out@ =~= join_spec(next, sep@));
        }
        i = i + 1;
    }
    assert(pv.subrange(0, parts@.len() as int) =~= pv);
    out
}

/// The display name of a field: its name, else its identifier.
pub open spec fn label_spec(f: SlotField) -> Seq<char> {
    match f.name {
        Some(n) => n@,
        None => f.ident@,
    }
}

impl SlotField {
    /// The display name (see [`label_spec`]).
    pub fn label(&self) -> (r: String)
        ensures
            r@ == label_spec(*self),
    {
        match &self.name {
            Some(n) => n.clone(),
            None => self.ident.clone(),
        }
    }
}

/// The capture group keys of a field: its identifier for a single capture;
/// `ident#0`, `ident#1`, … for a tuple.
pub open spec fn group_names_spec(f: SlotField) -> Seq<Seq<char>> {
    if f.tuple_len == 0 {
        seq![f.ident@]
    } else {
        Seq::new(f.tuple_len as nat, |i: int| f.ident@ + "#"@ + decimal(i))
    }
}

/// The capture group keys of a field (see [`group_names_spec`]).
pub fn slot_group_names(f: &SlotField) -> (r: Vec<String>)
    ensures
        r@.map_values(|s: String| s@) == group_names_spec(*f),
{
    let mut out: Vec<String> = Vec::new();
    if f.tuple_len == 0 {
        out.push(f.ident.clone());
        assert(out@.map_values(|s: String| s@) =~= group_names_spec(*f));
        return out;
    }
    let mut i: usize = 0;
    while i < f.tuple_len
        invariant
            f.tuple_len > 0,
            i <= f.tuple_len,
            out@.len() == i,
            forall|k: int| 0 <= k < i ==> #[trigger] out@[k]@ == f.ident@ + "#"@ + decimal(k),
        decreases f.tuple_len - i,
    {
        let mut s = f.ident.clone();
        s.append("#");
        push_nat(&mut s, i as u64);
        out.push(s);
        i = i + 1;
    }
    assert(out@.map_values(|s: String| s@) =~= group_names_spec(*f));
    out
}

/// A field block's index is below `n`.
pub open spec fn block_in_range(b: Block, n: nat) -> bool {
    match b {
        Block::Field(k) => k < n,
        Block::Lit(_) => true,
    }
}

/// All block indices name fields.
pub open spec fn blocks_valid(blocks: Seq<Block>, fields: Seq<SlotField>) -> bool {
    forall|i: int| 0 <= i < blocks.len() ==> block_in_range(#[trigger] blocks[i], fields.len())
}

/// The usage synopsis: literals as they are, required captures as `<name>`,
/// optional ones as `[name]`.
pub open spec fn synopsis_spec(blocks: Seq<Block>, fields: Seq<SlotField>) -> Seq<char>
    decreases blocks.len(),
{
    if blocks.len() == 0 {
        Seq::empty()
    } else {
        synopsis_spec(blocks.drop_last(), fields) + match blocks.last() {
            Block::Lit(t) => t@,
            Block::Field(k) => if fields[k as int].optional {
                "["@ + label_spec(fields[k as int]) + "]"@
            } else {
                "<"@ + label_spec(fields[k as int]) + ">"@
            },
        }
    }
}

/// Renders the usage synopsis, such as `查看<board>榜[scope]`.
pub fn slots_synopsis(blocks: &Vec<Block>, fields: &Vec<SlotField>) -> (r: String)
    requires
        blocks_valid(blocks@, fields@),
    ensures
        r@ == synopsis_spec(blocks@, fields@),
{
    let mut out = String::new();
    let mut i: usize = 0;
    assert(blocks@.subrange(0, 0) =~= Seq::<Block>::empty());
    while i < blocks.len()
        invariant
            i <= blocks@.len(),
            blocks_valid(blocks@, fields@),
            out@ == synopsis_spec(blocks@.subrange(0, i as int), fields@),
        decreases blocks@.len() - i,
    {
        let ghost next = blocks@.subrange(0, i + 1);
        assert(next.drop_last() =~= blocks@.subrange(0, i as int));
        assert(next.last() == blocks@[i as int]);
        match &blocks[i] {
            Block::Lit(t) => {
                out.append(t.as_str());
            },
            Block::Field(k) => {
                let f = &fields[*k];
                let l = f.label();
                if f.optional {
                    out.append("[");
                    out.append(l.as_str());
                    out.append("]");
                } else {
                    out.append("<");
                    out.append(l.as_str());
                    out.append(">");
                }
            },
        }
        i = i + 1;
    }
    assert(blocks@.subrange(0, blocks@.len() as int) =~= blocks@);
    out
}

/// Each word with `t` appended.
pub open spec fn extend_all(ws: Seq<Seq<char>>, t: Seq<char>) -> Seq<Seq<char>> {
    ws.map_values(|w: Seq<char>| w + t)
}

/// Each word followed by each alternative, word by word.
pub open spec fn product(ws: Seq<Seq<char>>, alts: Seq<Seq<char>>) -> Seq<Seq<char>>
    decreases ws.len(),
{
    if ws.len() == 0 {
        Seq::empty()
    } else {
        product(ws.drop_last(), alts) + alts.map_values(|a: Seq<char>| ws.last() + a)
    }
}

/// The views of a list of strings.
pub open spec fn strs(v: Seq<String>) -> Seq<Seq<char>> {
    v.map_values(|s: String| s@)
}

/// The words so far and whether a required alternative block was seen; `None`
/// once a required block cannot be enumerated (a raw pattern or a tail).
/// Optional blocks are left out of the words.
pub open spec fn words_fold(blocks: Seq<Block>, fields: Seq<SlotField>) -> Option<(Seq<Seq<char>>, bool)>
    decreases blocks.len(),
{
    if blocks.len() == 0 {
        Some((seq![Seq::<char>::empty()], false))
    } else {
        match words_fold(blocks.drop_last(), fields) {
            None => None,
            Some(acc) => match blocks.last() {
                Block::Lit(t) => Some((extend_all(acc.0, t@), acc.1)),
                Block::Field(k) => if fields[k as int].optional {
                    Some(acc)
                } else {
                    match fields[k as int].src {
                        SlotSource::Union(alts) => Some((product(acc.0, strs(alts@)), true)),
                        _ => None,
                    }
                },
            },
        }
    }
}

/// The concrete command words: the literals times each required alternative
/// block, in order; none when a required block cannot be enumerated or when
/// there is no alternative block at all.
pub open spec fn command_words_spec(blocks: Seq<Block>, fields: Seq<SlotField>) -> Seq<Seq<char>> {
    match words_fold(blocks, fields) {
        Some(acc) => if acc.1 {
            acc.0
        } else {
            Seq::empty()
        },
        None => Seq::empty(),
    }
}

fn extend_words(words: &Vec<String>, t: &str) -> (r: Vec<String>)
    ensures
        strs(r@) == extend_all(strs(words@), t@),
{
    let ghost wv = strs(words@);
    let mut out: Vec<String> = Vec::new();
    let mut j: usize = 0;
    while j < words.len()
        invariant
            j <= words@.len(),
            wv == strs(words@),
            strs(out@) == extend_all(wv.subrange(0, j as int), t@),
        decreases words@.len() - j,
    {
        assert(wv[j as int] == words@[j as int]@);
        let mut s = words[j].clone();
        s.append(t);
        assert(s@ == wv[j as int] + t@);
        let ghost prev = out@;
        out.push(s);
        assert(strs(out@) =~= strs(prev).push(s@));
        assert(extend_all(wv.subrange(0, j + 1), t@) =~= extend_all(wv.subrange(0, j as int), t@).push(
            wv[j as int] + t@,
        ));
        j = j + 1;
    }
    assert(wv.subrange(0, words@.len() as int) =~= wv);
    out
}

proof fn lemma_product_step(ws: Seq<Seq<char>>, alts: Seq<Seq<char>>, j: int)
    requires
        0 <= j < ws.len(),
    ensures
        product(ws.subrange(0, j + 1), alts) == product(ws.subrange(0, j), alts) + alts.map_values(
            |a: Seq<char>| ws[j] + a,
        ),
{
    let p = ws.subrange(0, j + 1);
    assert(p.drop_last() =~= ws.subrange(0, j));
    assert(p.last() == ws[j]);
}

fn product_words(words: &Vec<String>, alts: &Vec<String>) -> (r: Vec<String>)
    ensures
        strs(r@) == product(strs(words@), strs(alts@)),
{
    let ghost wv = strs(words@);
    let ghost av = strs(alts@);
    let mut out: Vec<String> = Vec::new();
    let mut j: usize = 0;
    assert(wv.subrange(0, 0) =~= Seq::<Seq<char>>::empty());
    while j < words.len()
        invariant
            j <= words@.len(),
            wv == strs(words@),
            av == strs(alts@),
            strs(out@) == product(wv.subrange(0, j as int), av),
        decreases words@.len() - j,
    {
        let ghost base = strs(out@);
        let mut a: usize = 0;
        while a < alts.len()
            invariant
                j < words@.len(),
                a <= alts@.len(),
                wv == strs(words@),
                av == strs(alts@),
                strs(out@) == base + av.subrange(0, a as int).map_values(|x: Seq<char>| wv[j as int] + x),
            decreases alts@.len() - a,
        {
            assert(wv[j as int] == words@[j as int]@);
            assert(av[a as int] == alts@[a as int]@);
            let mut s = words[j].clone();
            s.append(alts[a].as_str());
            assert(s@ == wv[j as int] + av[a as int]);
            let ghost prev = out@;
            out.push(s);
            assert(strs(out@) =~= strs(prev).push(s@));
            assert(av.subrange(0, a + 1).map_values(|x: Seq<char>| wv[j as int] + x) =~= av.subrange(0, a as int).map_values(
                |x: Seq<char>| wv[j as int] + x,
            ).push(wv[j as int] + av[a as int]));
            assert(strs(out@) =~= base + av.subrange(0, a + 1).map_values(|x: Seq<char>| wv[j as int] + x));
            a = a + 1;
        }
        assert(av.subrange(0, alts@.len() as int) =~= av);
        proof {
            lemma_product_step(wv, av, j as int);
        }
        j = j + 1;
    }
    assert(wv.subrange(0, words@.len() as int) =~= wv);
    out
}

/// The concrete command words for help (see [`command_words_spec`]), such as
/// 查看排行榜, 查看金币榜, … for `lit("查看"), board, lit("榜")`.
pub fn command_words(blocks: &Vec<Block>, fields: &Vec<SlotField>) -> (r: Vec<String>)
    requires
        blocks_valid(blocks@, fields@),
    ensures
        strs(r@) == command_words_spec(blocks@, fields@),
{
    let mut words: Vec<String> = Vec::new();
    words.push(String::new());
    let mut saw = false;
    let mut i: usize = 0;
    assert(blocks@.subrange(0, 0) =~= Seq::<Block>::empty());
    assert(strs(words@) =~= seq![Seq::<char>::empty()]);
    while i < blocks.len()
        invariant
            i <= blocks@.len(),
            blocks_valid(blocks@, fields@),
            words_fold(blocks@.subrange(0, i as int), fields@) == Some((strs(words@), saw)),
        decreases blocks@.len() - i,
    {
        let ghost next = blocks@.subrange(0, i + 1);
        assert(next.drop_last() =~= blocks@.subrange(0, i as int));
        assert(next.last() == blocks@[i as int]);
        match &blocks[i] {
            Block::Lit(t) => {
                words = extend_words(&words, t.as_str());
            },
            Block::Field(k) => {
                assert(block_in_range(blocks@[i as int], fields@.len()));
                let f = &fields[*k];
                if !f.optional {
                    match &f.src {
                        SlotSource::Union(alts) => {
                            words = product_words(&words, alts);
                            saw = true;
                        },
                        _ => {
                            let empty: Vec<String> = Vec::new();
                            proof {
                                lemma_fold_stays_none(blocks@, fields@, i + 1);
                            }
                            assert(strs(empty@) =~= Seq::<Seq<char>>::empty());
                            return empty;
                        },
                    }
                }
            },
        }
        i = i + 1;
    }
    assert(blocks@.subrange(0, blocks@.len() as int) =~= blocks@);
    if saw {
        words
    } else {
        let empty: Vec<String> = Vec::new();
        assert(strs(empty@) =~= Seq::<Seq<char>>::empty());
        empty
    }
}

/// Once the fold gives up, it stays given up.
proof fn lemma_fold_stays_none(blocks: Seq<Block>, fields: Seq<SlotField>, i: int)
    requires
        0 <= i <= blocks.len(),
        words_fold(blocks.subrange(0, i), fields) is None,
    ensures
        words_fold(blocks, fields) is None,
    decreases blocks.len() - i,
{
    if i < blocks.len() {
        let next = blocks.subrange(0, i + 1);
        assert(next.drop_last() =~= blocks.subrange(0, i));
        lemma_fold_stays_none(blocks, fields, i + 1);
    } else {
        assert(blocks.subrange(0, i) =~= blocks);
    }
}

/// The product has one word per word and alternative.
pub proof fn law_product_len(ws: Seq<Seq<char>>, alts: Seq<Seq<char>>)
    ensures
        product(ws, alts).len() == ws.len() * alts.len(),
    decreases ws.len(),
{
    if ws.len() > 0 {
        law_product_len(ws.drop_last(), alts);
        assert(product(ws, alts).len() == (ws.len() - 1) * alts.len() + alts.len());
        assert((ws.len() - 1) * alts.len() + alts.len() == ws.len() * alts.len()) by (nonlinear_arith);
    }
}

/// The pattern of a capture block's source: a raw fragment as is, the escaped
/// alternatives as one group, or a greedy tail group.
pub open spec fn source_pattern(src: SlotSource) -> Seq<char> {
    match src {
        SlotSource::Re(re) => re@,
        SlotSource::Union(alts) => "("@ + join_spec(strs(alts@).map_values(|a: Seq<char>| escape_spec(a)), "|"@)
            + ")"@,
        SlotSource::Tail => "([\\s\\S]*)"@,
    }
}

/// The slot of one block, after the separator `lead`: a literal is escaped
/// and captures nothing; a field captures under its group names.
pub open spec fn block_slot(b: Block, fields: Seq<SlotField>, lead: Seq<char>) -> SlotView {
    match b {
        Block::Lit(text) => SlotView {
            names: Seq::empty(),
            src: lead + escape_spec(text@),
            optional: false,
            flank: Flank::Whole,
        },
        Block::Field(k) => SlotView {
            names: group_names_spec(fields[k as int]),
            src: lead + source_pattern(fields[k as int].src),
            optional: fields[k as int].optional,
            flank: Flank::Whole,
        },
    }
}

fn source_pattern_of(src: &SlotSource) -> (r: String)
    ensures
        r@ == source_pattern(*src),
{
    match src {
        SlotSource::Re(re) => re.clone(),
        SlotSource::Union(alts) => {
            let mut escaped: Vec<String> = Vec::new();
            let mut i: usize = 0;
            while i < alts.len()
                invariant
                    i <= alts@.len(),
                    strs(escaped@) == strs(alts@).subrange(0, i as int).map_values(|a: Seq<char>| escape_spec(a)),
                decreases alts@.len() - i,
            {
                let e = regex_escape(alts[i].as_str());
                let ghost prev = escaped@;
                escaped.push(e);
                assert(strs(escaped@) =~= strs(prev).push(e@));
                assert(strs(alts@)[i as int] == alts@[i as int]@);
                assert(strs(alts@).subrange(0, i + 1).map_values(|a: Seq<char>| escape_spec(a)) =~= strs(
                    alts@,
                ).subrange(0, i as int).map_values(|a: Seq<char>| escape_spec(a)).push(escape_spec(alts@[i as int]@)));
                i = i + 1;
            }
            assert(strs(alts@).subrange(0, alts@.len() as int) =~= strs(alts@));
            let joined = join(&escaped, "|");
            let mut out = String::from_str("(");
            out.append(joined.as_str());
            out.append(")");
            out
        },
        SlotSource::Tail => String::from_str("([\\s\\S]*)"),
    }
}

/// The slot of one block (see [`block_slot`]).
pub fn block_spec(b: &Block, fields: &Vec<SlotField>, lead: &str) -> (r: SlotSpec)
    requires
        block_in_range(*b, fields@.len()),
    ensures
        slot_view(r) == block_slot(*b, fields@, lead@),
{
    match b {
        Block::Lit(text) => {
            let mut src = String::from_str(lead);
            let e = regex_escape(text.as_str());
            src.append(e.as_str());
            let names: Vec<String> = Vec::new();
            let r = SlotSpec { names, src, optional: false, flank: Flank::Whole };
            assert(slot_view(r).names =~= Seq::<Seq<char>>::empty());
            r
        },
        Block::Field(k) => {
            let f = &fields[*k];
            let names = slot_group_names(f);
            let mut src = String::from_str(lead);
            let body = source_pattern_of(&f.src);
            src.append(body.as_str());
            SlotSpec { names, src, optional: f.optional, flank: Flank::Whole }
        },
    }
}

/// The slot program of a sequence: each block's slot, the separator pattern
/// before every block but the first.
pub open spec fn program_spec(blocks: Seq<Block>, fields: Seq<SlotField>, sep: Seq<char>) -> Seq<SlotView> {
    Seq::new(
        blocks.len(),
        |i: int| block_slot(blocks[i], fields, if i == 0 { Seq::empty() } else { sep }),
    )
}

/// The slot program of a sequence (see [`program_spec`]); the default
/// separator, tolerating optional white space, is [`DEFAULT_SEP`].
pub fn slot_program(blocks: &Vec<Block>, fields: &Vec<SlotField>, sep: &str) -> (r: Vec<SlotSpec>)
    requires
        blocks_valid(blocks@, fields@),
    ensures
        r@.map_values(|s: SlotSpec| slot_view(s)) == program_spec(blocks@, fields@, sep@),
{
    let mut out: Vec<SlotSpec> = Vec::new();
    let mut i: usize = 0;
    while i < blocks.len()
        invariant
            i <= blocks@.len(),
            blocks_valid(blocks@, fields@),
            out@.len() == i,
            forall|j: int| 0 <= j < i ==> #[trigger] slot_view(out@[j]) == block_slot(blocks@[j], fields@, if j == 0 {
                Seq::empty()
            } else {
                sep@
            }),
        decreases blocks@.len() - i,
    {
        assert(block_in_range(blocks@[i as int], fields@.len()));
        let s = if i == 0 {
            let r = block_spec(&blocks[i], fields, "");
            proof {
                reveal_strlit("");
            }
            assert(""@ =~= Seq::<char>::empty());
            r
        } else {
            block_spec(&blocks[i], fields, sep)
        };
        out.push(s);
        i = i + 1;
    }
    assert(out@.map_values(|s: SlotSpec| slot_view(s)) =~= program_spec(blocks@, fields@, sep@));
    out
}

/// The separator between blocks when none is given: optional white space.
pub const DEFAULT_SEP: &'static str = "\\s*";

/// An argument line of help for a capture field: its display name, whether it
/// is required, and its description.
pub struct SlotArg {
    pub name: String,
    pub required: bool,
    pub desc: String,
}

/// The parts of a field's description: `可选` for an optional field, the
/// alternatives joined by `/`, and the author's description when non-empty.
pub open spec fn desc_parts(f: SlotField) -> Seq<Seq<char>> {
    (if f.optional {
        seq!["可选"@]
    } else {
        Seq::empty()
    }) + match f.src {
        SlotSource::Union(alts) => seq![join_spec(strs(alts@), "/"@)],
        _ => Seq::empty(),
    } + match f.desc {
        Some(d) => if d@.len() > 0 {
            seq![d@]
        } else {
            Seq::empty()
        },
        None => Seq::empty(),
    }
}

/// The argument line of a field: the parts of its description joined by ` · `.
pub fn slot_argspec(f: &SlotField) -> (r: SlotArg)
    ensures
        r.name@ == label_spec(*f),
        r.required == !f.optional,
        r.desc@ == join_spec(desc_parts(*f), " · "@),
{
    let mut parts: Vec<String> = Vec::new();
    if f.optional {
        parts.push(String::from_str("可选"));
    }
    let ghost p1 = strs(parts@);
    if let SlotSource::Union(alts) = &f.src {
        let j = join(alts, "/");
        parts.push(j);
    }
    let ghost p2 = strs(parts@);
    if let Some(d) = &f.desc {
        if d.as_str().unicode_len() > 0 {
            parts.push(d.clone());
        }
    }
    proof {
        let a: Seq<Seq<char>> = if f.optional { seq!["可选"@] } else { Seq::empty() };
        assert(p1 =~= a);
        let b: Seq<Seq<char>> = match &f.src {
            SlotSource::Union(alts) => seq![join_spec(strs(alts@), "/"@)],
            _ => Seq::empty(),
        };
        assert(p2 =~= a + b);
        assert(strs(parts@) =~= desc_parts(*f));
    }
    let desc = join(&parts, " · ");
    SlotArg { name: f.label(), required: !f.optional, desc }
}

/// An item of the struct-level sequence: a literal block or a field reference.
pub enum SeqItem {
    Lit(String),
    Field(String),
}

/// Why a sequence cannot be resolved.
pub enum BlockError {
    /// The sequence names no field of this name.
    UnknownField(String),
    /// The sequence names this field more than once.
    RepeatedField(String),
    /// This field is not placed in the sequence.
    UnplacedField(String),
}

/// The kind of a resolution error.
#[derive(Clone, Copy, Debug, PartialEq, Eq, Structural)]
pub enum BlockErrorKind {
    UnknownField,
    RepeatedField,
    UnplacedField,
}

/// The kind and field name of a resolution error.
pub open spec fn block_error_view(e: BlockError) -> (BlockErrorKind, Seq<char>) {
    match e {
        BlockError::UnknownField(n) => (BlockErrorKind::UnknownField, n@),
        BlockError::RepeatedField(n) => (BlockErrorKind::RepeatedField, n@),
        BlockError::UnplacedField(n) => (BlockErrorKind::UnplacedField, n@),
    }
}

/// The first of the first `n` fields with identifier `id`.
pub open spec fn first_field(fields: Seq<SlotField>, id: Seq<char>, n: int) -> Option<int>
    decreases n,
{
    if n <= 0 {
        None
    } else {
        match first_field(fields, id, n - 1) {
            Some(k) => Some(k),
            None => if fields[n - 1].ident@ == id {
                Some(n - 1)
            } else {
                None
            },
        }
    }
}

/// The first of the first `n` fields that no block places.
pub open spec fn first_unplaced(blocks: Seq<Block>, n: int) -> Option<int>
    decreases n,
{
    if n <= 0 {
        None
    } else {
        match first_unplaced(blocks, n - 1) {
            Some(k) => Some(k),
            None => if !blocks.contains(Block::Field((n - 1) as usize)) {
                Some(n - 1)
            } else {
                None
            },
        }
    }
}

/// The blocks of the sequence so far, or the first error.
pub open spec fn resolve_prefix(items: Seq<SeqItem>, fields: Seq<SlotField>) -> Result<
    Seq<Block>,
    (BlockErrorKind, Seq<char>),
>
    decreases items.len(),
{
    if items.len() == 0 {
        Ok(Seq::empty())
    } else {
        match resolve_prefix(items.drop_last(), fields) {
            Err(e) => Err(e),
            Ok(bs) => match items.last() {
                SeqItem::Lit(s) => Ok(bs.push(Block::Lit(s))),
                SeqItem::Field(id) => match first_field(fields, id@, fields.len() as int) {
                    None => Err((BlockErrorKind::UnknownField, id@)),
                    Some(k) => if bs.contains(Block::Field(k as usize)) {
                        Err((BlockErrorKind::RepeatedField, id@))
                    } else {
                        Ok(bs.push(Block::Field(k as usize)))
                    },
                },
            },
        }
    }
}

/// The resolved sequence: without items, the fields in declaration order;
/// otherwise the items in order, each field referenced exactly once.
pub open spec fn resolve_spec(items: Seq<SeqItem>, fields: Seq<SlotField>) -> Result<
    Seq<Block>,
    (BlockErrorKind, Seq<char>),
> {
    if items.len() == 0 {
        Ok(Seq::new(fields.len(), |i: int| Block::Field(i as usize)))
    } else {
        match resolve_prefix(items, fields) {
            Err(e) => Err(e),
            Ok(bs) => match first_unplaced(bs, fields.len() as int) {
                Some(i) => Err((BlockErrorKind::UnplacedField, fields[i].ident@)),
                None => Ok(bs),
            },
        }
    }
}

proof fn lemma_first_field_stays(fields: Seq<SlotField>, id: Seq<char>, n: int, m: int)
    requires
        0 <= n <= m,
        first_field(fields, id, n) is Some,
    ensures
        first_field(fields, id, m) == first_field(fields, id, n),
    decreases m - n,
{
    if m > n {
        lemma_first_field_stays(fields, id, n, m - 1);
    }
}

proof fn lemma_first_unplaced_stays(blocks: Seq<Block>, n: int, m: int)
    requires
        0 <= n <= m,
        first_unplaced(blocks, n) is Some,
    ensures
        first_unplaced(blocks, m) == first_unplaced(blocks, n),
    decreases m - n,
{
    if m > n {
        lemma_first_unplaced_stays(blocks, n, m - 1);
    }
}

fn find_field(fields: &Vec<SlotField>, id: &String) -> (r: Option<usize>)
    ensures
        match r {
            Some(k) => k < fields@.len() && first_field(fields@, id@, fields@.len() as int) == Some(k as int),
            None => first_field(fields@, id@, fields@.len() as int) is None,
        },
{
    let mut i: usize = 0;
    while i < fields.len()
        invariant
            i <= fields@.len(),
            first_field(fields@, id@, i as int) is None,
        decreases fields@.len() - i,
    {
        if str_eq(fields[i].ident.as_str(), id.as_str()) {
            proof {
                lemma_first_field_stays(fields@, id@, i + 1, fields@.len() as int);
            }
            return Some(i);
        }
        i = i + 1;
    }
    None
}

/// Resolves the struct-level sequence against the fields (see [`resolve_spec`]).
pub fn resolve_blocks(items: &Vec<SeqItem>, fields: &Vec<SlotField>) -> (r: Result<Vec<Block>, BlockError>)
    ensures
        match r {
            Ok(bs) => resolve_spec(items@, fields@) == Ok::<Seq<Block>, (BlockErrorKind, Seq<char>)>(bs@),
            Err(e) => resolve_spec(items@, fields@) == Err::<Seq<Block>, (BlockErrorKind, Seq<char>)>(
                block_error_view(e),
            ),
        },
{
    let n = fields.len();
    let mut blocks: Vec<Block> = Vec::new();
    if items.len() == 0 {
        let mut i: usize = 0;
        while i < n
            invariant
                n == fields@.len(),
                i <= n,
                blocks@ == Seq::new(i as nat, |j: int| Block::Field(j as usize)),
            decreases n - i,
        {
            blocks.push(Block::Field(i));
            assert(blocks@ =~= Seq::new((i + 1) as nat, |j: int| Block::Field(j as usize)));
            i = i + 1;
        }
        return Ok(blocks);
    }
    let mut used: Vec<bool> = Vec::new();
    let mut i: usize = 0;
    while i < n
        invariant
            n == fields@.len(),
            i <= n,
            used@.len() == i,
            forall|j: int| 0 <= j < i ==> !used@[j],
        decreases n - i,
    {
        used.push(false);
        i = i + 1;
    }
    let mut t: usize = 0;
    assert(items@.subrange(0, 0) =~= Seq::<SeqItem>::empty());
    while t < items.len()
        invariant
            n == fields@.len(),
            t <= items@.len(),
            used@.len() == n,
            resolve_prefix(items@.subrange(0, t as int), fields@) == Ok::<Seq<Block>, (BlockErrorKind, Seq<char>)>(
                blocks@,
            ),
            forall|k: int| 0 <= k < n ==> (used@[k] <==> blocks@.contains(Block::Field(k as usize))),
            forall|j: int| 0 <= j < blocks@.len() ==> block_in_range(#[trigger] blocks@[j], n as nat),
        decreases items@.len() - t,
    {
        let ghost pre = items@.subrange(0, t as int);
        let ghost next = items@.subrange(0, t + 1);
        assert(next.drop_last() =~= pre);
        assert(next.last() == items@[t as int]);
        let ghost old_blocks = blocks@;
        match &items[t] {
            SeqItem::Lit(s) => {
                blocks.push(Block::Lit(s.clone()));
                proof {
                    assert forall|k: int| 0 <= k < n implies (used@[k] <==> blocks@.contains(
                        Block::Field(k as usize),
                    )) by {
                        if blocks@.contains(Block::Field(k as usize)) {
                            let j = choose|j: int| 0 <= j < blocks@.len() && blocks@[j] == Block::Field(k as usize);
                            if j < old_blocks.len() {
                                assert(old_blocks[j] == blocks@[j]);
                            }
                        }
                        if old_blocks.contains(Block::Field(k as usize)) {
                            let j = choose|j: int| 0 <= j < old_blocks.len() && old_blocks[j] == Block::Field(k as usize);
                            assert(blocks@[j] == old_blocks[j]);
                        }
                    }
                }
            },
            SeqItem::Field(id) => {
                match find_field(fields, id) {
                    None => {
                        proof {
                            assert(resolve_prefix(next, fields@) == Err::<Seq<Block>, (BlockErrorKind, Seq<char>)>(
                                (BlockErrorKind::UnknownField, id@),
                            ));
                            lemma_resolve_err_stays(items@, fields@, t + 1);
                        }
                        return Err(BlockError::UnknownField(id.clone()));
                    },
                    Some(k) => {
                        if used[k] {
                            proof {
                                lemma_resolve_err_stays(items@, fields@, t + 1);
                            }
                            return Err(BlockError::RepeatedField(id.clone()));
                        }
                        used.set(k, true);
                        blocks.push(Block::Field(k));
                        proof {
                            assert forall|k2: int| 0 <= k2 < n implies (used@[k2] <==> blocks@.contains(
                                Block::Field(k2 as usize),
                            )) by {
                                if blocks@.contains(Block::Field(k2 as usize)) {
                                    let j = choose|j: int|
                                        0 <= j < blocks@.len() && blocks@[j] == Block::Field(k2 as usize);
                                    if j < old_blocks.len() {
                                        assert(old_blocks[j] == blocks@[j]);
                                    }
                                }
                                if old_blocks.contains(Block::Field(k2 as usize)) {
                                    let j = choose|j: int|
                                        0 <= j < old_blocks.len() && old_blocks[j] == Block::Field(k2 as usize);
                                    assert(blocks@[j] == old_blocks[j]);
                                }
                                if k2 == k {
                                    assert(blocks@[old_blocks.len() as int] == Block::Field(k));
                                }
                            }
                        }
                    },
                }
            },
        }
        t = t + 1;
    }
    assert(items@.subrange(0, items@.len() as int) =~= items@);
    let mut u: usize = 0;
    while u < n
        invariant
            n == fields@.len(),
            u <= n,
            used@.len() == n,
            forall|k: int| 0 <= k < n ==> (used@[k] <==> blocks@.contains(Block::Field(k as usize))),
            first_unplaced(blocks@, u as int) is None,
            items@.len() > 0,
            resolve_prefix(items@, fields@) == Ok::<Seq<Block>, (BlockErrorKind, Seq<char>)>(blocks@),
        decreases n - u,
    {
        if !used[u] {
            proof {
                assert(first_unplaced(blocks@, u + 1) == Some(u as int));
                lemma_first_unplaced_stays(blocks@, u + 1, n as int);
                assert(resolve_prefix(items@, fields@) == Ok::<Seq<Block>, (BlockErrorKind, Seq<char>)>(blocks@));
            }
            return Err(BlockError::UnplacedField(fields[u].ident.clone()));
        }
        u = u + 1;
    }
    Ok(blocks)
}

/// Once resolution fails, later items do not change the error.
proof fn lemma_resolve_err_stays(items: Seq<SeqItem>, fields: Seq<SlotField>, i: int)
    requires
        0 <= i <= items.len(),
        resolve_prefix(items.subrange(0, i), fields) is Err,
    ensures
        resolve_prefix(items, fields) == resolve_prefix(items.subrange(0, i), fields),
    decreases items.len() - i,
{
    if i < items.len() {
        let next = items.subrange(0, i + 1);
        assert(next.drop_last() =~= items.subrange(0, i));
        lemma_resolve_err_stays(items, fields, i + 1);
    } else {
        assert(items.subrange(0, i) =~= items);
    }
}

/// The text of a resolution error.
pub open spec fn block_error_text(e: BlockError) -> Seq<char> {
    match e {
        BlockError::UnknownField(n) => "#[slots(..)] references unknown field `"@ + n@ + "`"@,
        BlockError::RepeatedField(n) => "#[slots(..)] references field `"@ + n@ + "` more than once"@,
        BlockError::UnplacedField(n) => "field `"@ + n@ + "` is not placed in #[slots(..)] sequence"@,
    }
}

impl BlockError {
    /// The human-readable text of this error.
    pub fn message(&self) -> (r: String)
        ensures
            r@ == block_error_text(*self),
    {
        match self {
            BlockError::UnknownField(n) => {
                let mut s = String::from_str("#[slots(..)] references unknown field `");
                s.append(n.as_str());
                s.append("`");
                s
            },
            BlockError::RepeatedField(n) => {
                let mut s = String::from_str("#[slots(..)] references field `");
                s.append(n.as_str());
                s.append("` more than once");
                s
            },
            BlockError::UnplacedField(n) => {
                let mut s = String::from_str("field `");
                s.append(n.as_str());
                s.append("` is not placed in #[slots(..)] sequence");
                s
            },
        }
    }
}

/// Why the fields of a slot struct are refused.
pub enum FieldError {
    /// A tail field cannot be a tuple.
    TailTuple(String),
    /// Two fields share this slot name.
    DuplicateSlot(String),
}

/// The kind of a field error.
#[derive(Clone, Copy, Debug, PartialEq, Eq, Structural)]
pub enum FieldErrorKind {
    TailTuple,
    DuplicateSlot,
}

/// The kind and field name of a field error.
pub open spec fn field_error_view(e: FieldError) -> (FieldErrorKind, Seq<char>) {
    match e {
        FieldError::TailTuple(n) => (FieldErrorKind::TailTuple, n@),
        FieldError::DuplicateSlot(n) => (FieldErrorKind::DuplicateSlot, n@),
    }
}

/// A tail field declared as a tuple.
pub open spec fn tail_tuple(f: SlotField) -> bool {
    f.src is Tail && f.tuple_len > 0
}

/// The first of the first `n` fields that is a tail tuple.
pub open spec fn first_tail_tuple(fields: Seq<SlotField>, n: int) -> Option<int>
    decreases n,
{
    if n <= 0 {
        None
    } else {
        match first_tail_tuple(fields, n - 1) {
            Some(k) => Some(k),
            None => if tail_tuple(fields[n - 1]) {
                Some(n - 1)
            } else {
                None
            },
        }
    }
}

/// Field `j` repeats the slot name of an earlier field.
pub open spec fn repeats_slot(fields: Seq<SlotField>, j: int) -> bool {
    exists|i: int| 0 <= i < j && fields[i].ident@ == fields[j].ident@
}

/// The first of the first `n` fields that repeats an earlier slot name.
pub open spec fn first_repeat(fields: Seq<SlotField>, n: int) -> Option<int>
    decreases n,
{
    if n <= 0 {
        None
    } else {
        match first_repeat(fields, n - 1) {
            Some(k) => Some(k),
            None => if repeats_slot(fields, n - 1) {
                Some(n - 1)
            } else {
                None
            },
        }
    }
}

/// The fields' check: the first tail tuple is refused; then the first field
/// that repeats a slot name.
pub open spec fn check_fields_spec(fields: Seq<SlotField>) -> Result<(), (FieldErrorKind, Seq<char>)> {
    match first_tail_tuple(fields, fields.len() as int) {
        Some(k) => Err((FieldErrorKind::TailTuple, fields[k].ident@)),
        None => match first_repeat(fields, fields.len() as int) {
            Some(j) => Err((FieldErrorKind::DuplicateSlot, fields[j].ident@)),
            None => Ok(()),
        },
    }
}

proof fn lemma_first_tail_stays(fields: Seq<SlotField>, n: int, m: int)
    requires
        0 <= n <= m,
        first_tail_tuple(fields, n) is Some,
    ensures
        first_tail_tuple(fields, m) == first_tail_tuple(fields, n),
    decreases m - n,
{
    if m > n {
        lemma_first_tail_stays(fields, n, m - 1);
    }
}

proof fn lemma_first_repeat_stays(fields: Seq<SlotField>, n: int, m: int)
    requires
        0 <= n <= m,
        first_repeat(fields, n) is Some,
    ensures
        first_repeat(fields, m) == first_repeat(fields, n),
    decreases m - n,
{
    if m > n {
        lemma_first_repeat_stays(fields, n, m - 1);
    }
}

/// Checks the fields of a slot struct (see [`check_fields_spec`]).
pub fn check_fields(fields: &Vec<SlotField>) -> (r: Result<(), FieldError>)
    ensures
        match r {
            Ok(()) => check_fields_spec(fields@) == Ok::<(), (FieldErrorKind, Seq<char>)>(()),
            Err(e) => check_fields_spec(fields@) == Err::<(), (FieldErrorKind, Seq<char>)>(field_error_view(e)),
        },
{
    let n = fields.len();
    let mut k: usize = 0;
    while k < n
        invariant
            n == fields@.len(),
            k <= n,
            first_tail_tuple(fields@, k as int) is None,
        decreases n - k,
    {
        let f = &fields[k];
        let is_tail = match f.src {
            SlotSource::Tail => true,
            _ => false,
        };
        if is_tail && f.tuple_len > 0 {
            proof {
                assert(first_tail_tuple(fields@, k + 1) == Some(k as int));
                lemma_first_tail_stays(fields@, k + 1, n as int);
            }
            return Err(FieldError::TailTuple(f.ident.clone()));
        }
        k = k + 1;
    }
    let mut j: usize = 0;
    while j < n
        invariant
            n == fields@.len(),
            j <= n,
            first_tail_tuple(fields@, n as int) is None,
            first_repeat(fields@, j as int) is None,
        decreases n - j,
    {
        let mut i: usize = 0;
        while i < j
            invariant
                n == fields@.len(),
                i <= j < n,
                first_tail_tuple(fields@, n as int) is None,
                first_repeat(fields@, j as int) is None,
                forall|x: int| 0 <= x < i ==> fields@[x].ident@ != fields@[j as int].ident@,
            decreases j - i,
        {
            if str_eq(fields[i].ident.as_str(), fields[j].ident.as_str()) {
                proof {
                    assert(repeats_slot(fields@, j as int));
                    assert(first_repeat(fields@, j + 1) == Some(j as int));
                    lemma_first_repeat_stays(fields@, j + 1, n as int);
                }
                return Err(FieldError::DuplicateSlot(fields[j].ident.clone()));
            }
            i = i + 1;
        }
        assert(!repeats_slot(fields@, j as int));
        j = j + 1;
    }
    Ok(())
}

/// The text of a field error.
pub open spec fn field_error_text(e: FieldError) -> Seq<char> {
    match e {
        FieldError::TailTuple(_) => "#[slot(tail)] cannot be a tuple"@,
        FieldError::DuplicateSlot(_) => "duplicate slot name"@,
    }
}

impl FieldError {
    /// The human-readable text of this error.
    pub fn message(&self) -> (r: String)
        ensures
            r@ == field_error_text(*self),
    {
        match self {
            FieldError::TailTuple(_) => String::from_str("#[slot(tail)] cannot be a tuple"),
            FieldError::DuplicateSlot(_) => String::from_str("duplicate slot name"),
        }
    }
}

} // verus!
