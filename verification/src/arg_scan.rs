//! The argument scanner behind derived argument structs: one pass over the
//! token stream that picks out flags (`--name`, `-c`) and options with their
//! values, and keeps the other words, in order, for the positional fields.
//! With a verbatim rest field, switches are read only before the first plain
//! word. Then the field builders: the first unconsumed mention, and the text
//! fields (required, optional, or with a default).
use vstd::prelude::*;
use crate::args::{ArgError, ArgToken, FromArg};
use crate::ids::Uin;
use crate::matcher::Seg;
use crate::text::{lower_text, lowercase, str_eq};
use crate::args::skip_words;
use crate::args::skip_words_spec;
use crate::slot_seq::{join, join_spec, strs};

verus! {

/// A flag or an option: the words that name it, and whether it takes a value.
pub struct Switch {
    pub names: Vec<String>,
    pub takes_value: bool,
}

/// The scanner's state after a prefix of the tokens.
pub struct ScanState {
    /// The plain words, in order.
    pub words: Seq<Seq<char>>,
    /// For each switch, whether it was seen (flags).
    pub flags: Seq<bool>,
    /// For each switch, its last value (options).
    pub values: Seq<Option<Seq<char>>>,
    /// How many words were switches or their values.
    pub flag_words: nat,
    /// The next token is an option's value (consumed).
    pub skip: bool,
    /// A plain word was seen (switches are then no longer read, when they
    /// are read only in the lead).
    pub done: bool,
}

/// The first of the first `n` switches that `w` names.
pub open spec fn first_switch(sw: Seq<Switch>, w: Seq<char>, n: int) -> Option<int>
    decreases n,
{
    if n <= 0 {
        None
    } else {
        match first_switch(sw, w, n - 1) {
            Some(k) => Some(k),
            None => if sw[n - 1].names@.map_values(|s: String| s@).contains(w) {
                Some(n - 1)
            } else {
                None
            },
        }
    }
}

/// `v` is a word that can be an option's value: not starting with `--`
/// (a single `-` is allowed, for negative numbers).
pub open spec fn value_word(t: ArgToken) -> Option<Seq<char>> {
    match t {
        ArgToken::Word(v) => if "--"@.is_prefix_of(v@) {
            None
        } else {
            Some(v@)
        },
        ArgToken::Element(_) => None,
    }
}

/// The state before any token.
pub open spec fn scan_init(n: nat) -> ScanState {
    ScanState {
        words: Seq::empty(),
        flags: Seq::new(n, |k: int| false),
        values: Seq::new(n, |k: int| None),
        flag_words: 0,
        skip: false,
        done: false,
    }
}

/// One step of the scan, at token `i`.
pub open spec fn scan_step(st: ScanState, tokens: Seq<ArgToken>, i: int, sw: Seq<Switch>, lead_only: bool) -> ScanState {
    if st.skip {
        ScanState { skip: false, ..st }
    } else {
        match tokens[i] {
            ArgToken::Element(_) => st,
            ArgToken::Word(w) => if lead_only && st.done {
                ScanState { words: st.words.push(w@), ..st }
            } else {
                match first_switch(sw, w@, sw.len() as int) {
                    None => ScanState { words: st.words.push(w@), done: st.done || lead_only, ..st },
                    Some(k) => if !sw[k].takes_value {
                        ScanState { flags: st.flags.update(k, true), flag_words: st.flag_words + 1, ..st }
                    } else if i + 1 < tokens.len() && value_word(tokens[i + 1]) is Some {
                        ScanState {
                            values: st.values.update(k, value_word(tokens[i + 1])),
                            flag_words: st.flag_words + 2,
                            skip: true,
                            ..st
                        }
                    } else {
                        ScanState { flag_words: st.flag_words + 1, ..st }
                    },
                }
            },
        }
    }
}

/// The state after the first `n` tokens.
pub open spec fn scan_fold(tokens: Seq<ArgToken>, sw: Seq<Switch>, lead_only: bool, n: int) -> ScanState
    decreases n,
{
    if n <= 0 {
        scan_init(sw.len())
    } else {
        scan_step(scan_fold(tokens, sw, lead_only, n - 1), tokens, n - 1, sw, lead_only)
    }
}

/// The result of a scan.
pub struct Scan {
    pub words: Vec<String>,
    pub flags: Vec<bool>,
    pub values: Vec<Option<String>>,
    pub flag_words: usize,
    /// Which tokens were consumed as option values.
    pub consumed: Vec<bool>,
}

/// The views of a list of optional strings.
pub open spec fn opt_strs(v: Seq<Option<String>>) -> Seq<Option<Seq<char>>> {
    v.map_values(
        |o: Option<String>|
            match o {
                Some(s) => Some(s@),
                None => None,
            },
    )
}

fn find_switch(sw: &Vec<Switch>, w: &String) -> (r: Option<usize>)
    ensures
        match r {
            Some(k) => k < sw@.len() && first_switch(sw@, w@, sw@.len() as int) == Some(k as int),
            None => first_switch(sw@, w@, sw@.len() as int) is None,
        },
{
    let mut k: usize = 0;
    while k < sw.len()
        invariant
            k <= sw@.len(),
            first_switch(sw@, w@, k as int) is None,
        decreases sw@.len() - k,
    {
        let names = &sw[k].names;
        let mut j: usize = 0;
        while j < names.len()
            invariant
                k < sw@.len(),
                first_switch(sw@, w@, k as int) is None,
                names@ == sw@[k as int].names@,
                j <= names@.len(),
                forall|x: int| 0 <= x < j ==> names@[x]@ != w@,
            decreases names@.len() - j,
        {
            if str_eq(names[j].as_str(), w.as_str()) {
                proof {
                    assert(strs(names@)[j as int] == w@);
                    assert(sw@[k as int].names@.map_values(|s: String| s@) == strs(names@));
                    assert(strs(names@).contains(w@));
                    let kk = k as int;
                    assert(first_switch(sw@, w@, kk) is None);
                    assert(sw@[kk].names@.map_values(|s: String| s@).contains(w@));
                    assert(first_switch(sw@, w@, kk + 1) == Some(kk));
                    lemma_first_switch_stays(sw@, w@, k + 1, sw@.len() as int);
                }
                return Some(k);
            }
            j = j + 1;
        }
        proof {
            assert(sw@[k as int].names@.map_values(|s: String| s@) == strs(names@));
            if strs(names@).contains(w@) {
                let x = choose|x: int| 0 <= x < strs(names@).len() && strs(names@)[x] == w@;
                assert(names@[x]@ == w@);
            }
        }
        k = k + 1;
    }
    None
}

proof fn lemma_first_switch_stays(sw: Seq<Switch>, w: Seq<char>, n: int, m: int)
    requires
        0 <= n <= m,
        first_switch(sw, w, n) is Some,
    ensures
        first_switch(sw, w, m) == first_switch(sw, w, n),
    decreases m - n,
{
    if m > n {
        lemma_first_switch_stays(sw, w, n, m - 1);
    }
}

fn value_of(t: &ArgToken) -> (r: Option<String>)
    ensures
        match r {
            Some(v) => value_word(*t) == Some(v@),
            None => value_word(*t) is None,
        },
{
    match t {
        ArgToken::Word(v) => {
            let n = v.as_str().unicode_len();
            let is_long = n >= 2 && v.as_str().get_char(0) == '-' && v.as_str().get_char(1) == '-';
            proof {
                reveal_strlit("--");
                if "--"@.is_prefix_of(v@) {
                    assert(v@[0] == "--"@[0]);
                    assert(v@[1] == "--"@[1]);
                }
                if is_long {
                    assert(v@.subrange(0, 2) =~= "--"@);
                }
            }
            if is_long {
                None
            } else {
                Some(v.clone())
            }
        },
        ArgToken::Element(_) => None,
    }
}

/// Scans the tokens against the switches (see [`scan_fold`]): `lead_only`
/// reads switches only before the first plain word. The consumed marks are
/// the tokens taken as option values.
pub fn scan_tokens(tokens: &[ArgToken], sw: &Vec<Switch>, lead_only: bool) -> (r: Scan)
    ensures
        strs(r.words@) == scan_fold(tokens@, sw@, lead_only, tokens@.len() as int).words,
        r.flags@ == scan_fold(tokens@, sw@, lead_only, tokens@.len() as int).flags,
        opt_strs(r.values@) == scan_fold(tokens@, sw@, lead_only, tokens@.len() as int).values,
        r.flag_words == scan_fold(tokens@, sw@, lead_only, tokens@.len() as int).flag_words,
        r.consumed@.len() == tokens@.len(),
        forall|i: int| 0 <= i < tokens@.len() ==> r.consumed@[i] == scan_fold(tokens@, sw@, lead_only, i).skip,
{
    let n = tokens.len();
    let mut words: Vec<String> = Vec::new();
    let mut flags: Vec<bool> = Vec::new();
    let mut values: Vec<Option<String>> = Vec::new();
    let mut k: usize = 0;
    while k < sw.len()
        invariant
            k <= sw@.len(),
            flags@ == Seq::new(k as nat, |x: int| false),
            opt_strs(values@) == Seq::new(k as nat, |x: int| None::<Seq<char>>),
        decreases sw@.len() - k,
    {
        let ghost before = values@;
        flags.push(false);
        values.push(None);
        assert(values@ == before.push(None));
        assert(opt_strs(values@) =~= opt_strs(before).push(None));
        assert(flags@ =~= Seq::new((k + 1) as nat, |x: int| false));
        assert(opt_strs(values@) =~= Seq::new((k + 1) as nat, |x: int| None::<Seq<char>>));
        k = k + 1;
    }
    assert(words@.map_values(|s: String| s@) =~= Seq::<Seq<char>>::empty());
    let mut flag_words: usize = 0;
    let mut skip = false;
    let mut done = false;
    let mut consumed: Vec<bool> = Vec::new();
    let mut i: usize = 0;
    while i < n
        invariant
            n == tokens@.len(),
            i <= n,
            consumed@.len() == i,
            forall|j: int| 0 <= j < i ==> consumed@[j] == scan_fold(tokens@, sw@, lead_only, j).skip,
            strs(words@) == scan_fold(tokens@, sw@, lead_only, i as int).words,
            flags@ == scan_fold(tokens@, sw@, lead_only, i as int).flags,
            opt_strs(values@) == scan_fold(tokens@, sw@, lead_only, i as int).values,
            flag_words == scan_fold(tokens@, sw@, lead_only, i as int).flag_words,
            skip == scan_fold(tokens@, sw@, lead_only, i as int).skip,
            done == scan_fold(tokens@, sw@, lead_only, i as int).done,
            flags@.len() == sw@.len(),
            values@.len() == sw@.len(),
            skip ==> i < n,
            flag_words + (if skip { 1int } else { 0int }) <= i + (if skip { 2int } else { 0int }),
            flag_words <= i + (if skip { 1int } else { 0int }),
        decreases n - i,
    {
        consumed.push(skip);
        if skip {
            skip = false;
        } else {
            match &tokens[i] {
                ArgToken::Element(_) => {},
                ArgToken::Word(w) => {
                    if lead_only && done {
                        words.push(w.clone());
                        assert(strs(words@) =~= strs(words@.drop_last()).push(w@));
                    } else {
                        match find_switch(sw, w) {
                            None => {
                                words.push(w.clone());
                                assert(strs(words@) =~= strs(words@.drop_last()).push(w@));
                                done = done || lead_only;
                            },
                            Some(k) => {
                                if !sw[k].takes_value {
                                    flags.set(k, true);
                                    flag_words = flag_words + 1;
                                } else {
                                    let v = if i + 1 < n {
                                        value_of(&tokens[i + 1])
                                    } else {
                                        None
                                    };
                                    match v {
                                        Some(val) => {
                                            let ghost before = values@;
                                            values.set(k, Some(val));
                                            assert(opt_strs(values@) =~= opt_strs(before).update(
                                                k as int,
                                                value_word(tokens@[i + 1]),
                                            ));
                                            flag_words = flag_words + 2;
                                            skip = true;
                                        },
                                        None => {
                                            flag_words = flag_words + 1;
                                        },
                                    }
                                }
                            },
                        }
                    }
                },
            }
        }
        i = i + 1;
    }
    Scan { words, flags, values, flag_words, consumed }
}

/// The first unconsumed mention among the first `n` tokens.
pub open spec fn first_free_mention(tokens: Seq<ArgToken>, consumed: Seq<bool>, n: int) -> Option<(int, Uin)>
    decreases n,
{
    if n <= 0 {
        None
    } else {
        match first_free_mention(tokens, consumed, n - 1) {
            Some(x) => Some(x),
            None => if !consumed[n - 1] {
                match tokens[n - 1] {
                    ArgToken::Element(Seg::Mention(u, _)) => Some((n - 1, u)),
                    _ => None,
                }
            } else {
                None
            },
        }
    }
}

proof fn lemma_first_free_mention_stays(tokens: Seq<ArgToken>, consumed: Seq<bool>, n: int, m: int)
    requires
        0 <= n <= m,
        first_free_mention(tokens, consumed, n) is Some,
    ensures
        first_free_mention(tokens, consumed, m) == first_free_mention(tokens, consumed, n),
    decreases m - n,
{
    if m > n {
        lemma_first_free_mention_stays(tokens, consumed, n, m - 1);
    }
}

/// Takes the first unconsumed mention element and marks it consumed.
pub fn take_mention(tokens: &[ArgToken], consumed: &mut Vec<bool>) -> (r: Option<Uin>)
    requires
        old(consumed)@.len() == tokens@.len(),
    ensures
        match first_free_mention(tokens@, old(consumed)@, tokens@.len() as int) {
            Some((i, u)) => r == Some(u) && final(consumed)@ == old(consumed)@.update(i, true),
            None => r is None && final(consumed)@ == old(consumed)@,
        },
{
    let mut k: usize = 0;
    while k < tokens.len()
        invariant
            k <= tokens@.len(),
            consumed@ == old(consumed)@,
            consumed@.len() == tokens@.len(),
            first_free_mention(tokens@, consumed@, k as int) is None,
        decreases tokens@.len() - k,
    {
        if !consumed[k] {
            if let ArgToken::Element(Seg::Mention(u, _)) = &tokens[k] {
                let u = *u;
                proof {
                    assert(first_free_mention(tokens@, consumed@, k + 1) == Some((k as int, u)));
                    lemma_first_free_mention_stays(tokens@, consumed@, k + 1, tokens@.len() as int);
                }
                consumed.set(k, true);
                return Some(u);
            }
        }
        k = k + 1;
    }
    None
}

/// A required text field: a missing word is an error; a word that does not
/// parse is a parse error naming the field, the word and the expected type.
pub fn required_arg<T: FromArg>(field: &'static str, source: Option<&str>) -> (r: Result<T, ArgError>)
    ensures
        match source {
            None => r matches Err(ArgError::Missing(f)) && f@ == field@,
            Some(raw) => match r {
                Ok(v) => T::arg_spec(raw@, Some(v)),
                Err(e) => T::arg_spec(raw@, None) && (e matches ArgError::Parse { field: f, value, expected }
                    && f@ == field@ && value@ == raw@ && expected == T::TYPE_NAME),
            },
        },
{
    match source {
        None => Err(ArgError::Missing(field)),
        Some(raw) => match T::from_arg(raw) {
            Some(v) => Ok(v),
            None => Err(ArgError::Parse { field, value: raw.to_owned(), expected: T::TYPE_NAME }),
        },
    }
}

/// An optional text field: no word, no value; a word that does not parse is
/// a parse error.
pub fn optional_arg<T: FromArg>(field: &'static str, source: Option<&str>) -> (r: Result<Option<T>, ArgError>)
    ensures
        match source {
            None => r matches Ok(None),
            Some(raw) => match r {
                Ok(Some(v)) => T::arg_spec(raw@, Some(v)),
                Ok(None) => false,
                Err(e) => T::arg_spec(raw@, None) && (e matches ArgError::Parse { field: f, value, expected }
                    && f@ == field@ && value@ == raw@ && expected == T::TYPE_NAME),
            },
        },
{
    match source {
        None => Ok(None),
        Some(raw) => match T::from_arg(raw) {
            Some(v) => Ok(Some(v)),
            None => Err(ArgError::Parse { field, value: raw.to_owned(), expected: T::TYPE_NAME }),
        },
    }
}

/// A text field with a default: without a word the default text is parsed
/// instead.
pub fn defaulted_arg<T: FromArg>(field: &'static str, source: Option<&str>, default: &str) -> (r: Result<
    T,
    ArgError,
>)
    ensures
        ({
            let raw = match source {
                Some(s) => s@,
                None => default@,
            };
            match r {
                Ok(v) => T::arg_spec(raw, Some(v)),
                Err(e) => T::arg_spec(raw, None) && (e matches ArgError::Parse { field: f, value, expected }
                    && f@ == field@ && value@ == raw && expected == T::TYPE_NAME),
            }
        }),
{
    let raw = match source {
        Some(s) => s,
        None => default,
    };
    match T::from_arg(raw) {
        Some(v) => Ok(v),
        None => Err(ArgError::Parse { field, value: raw.to_owned(), expected: T::TYPE_NAME }),
    }
}

/// A mention or an account number: the first unconsumed mention (which
/// takes no word), else the next word read as an account (`@123` or `123`).
pub fn at_or_id(tokens: &[ArgToken], consumed: &mut Vec<bool>, next_word: Option<&str>) -> (r: Option<Uin>)
    requires
        old(consumed)@.len() == tokens@.len(),
    ensures
        match first_free_mention(tokens@, old(consumed)@, tokens@.len() as int) {
            Some((i, u)) => r == Some(u) && final(consumed)@ == old(consumed)@.update(i, true),
            None => final(consumed)@ == old(consumed)@ && match next_word {
                Some(w) => <Uin as FromArg>::arg_spec(w@, r),
                None => r is None,
            },
        },
{
    match take_mention(tokens, consumed) {
        Some(u) => Some(u),
        None => match next_word {
            Some(w) => <Uin as FromArg>::from_arg(w),
            None => None,
        },
    }
}

/// The remaining words joined by single spaces (a rest field).
pub fn rest_words(words: &Vec<String>, from: usize) -> (r: String)
    requires
        from <= words@.len(),
    ensures
        r@ == join_spec(strs(words@).subrange(from as int, words@.len() as int), " "@),
{
    let mut rest: Vec<String> = Vec::new();
    let mut i: usize = from;
    while i < words.len()
        invariant
            from <= i <= words@.len(),
            strs(rest@) == strs(words@).subrange(from as int, i as int),
        decreases words@.len() - i,
    {
        let ghost prev = rest@;
        rest.push(words[i].clone());
        assert(strs(rest@) =~= strs(prev).push(words@[i as int]@));
        assert(strs(words@)[i as int] == words@[i as int]@);
        assert(strs(rest@) =~= strs(words@).subrange(from as int, i + 1));
        i = i + 1;
    }
    join(&rest, " ")
}

/// The verbatim rest: the raw text after the switch words and the positional
/// words already taken.
pub fn raw_rest(raw_text: &str, flag_words: usize, taken: usize) -> (r: String)
    requires
        flag_words + taken <= usize::MAX,
    ensures
        r@ == skip_words_spec(raw_text@, (flag_words + taken) as nat),
{
    skip_words(raw_text, flag_words + taken)
}

/// The first of the first `n` names that equals `s` ignoring case.
pub open spec fn first_name_match(names: Seq<Seq<char>>, s: Seq<char>, n: int) -> Option<int>
    decreases n,
{
    if n <= 0 {
        None
    } else {
        match first_name_match(names, s, n - 1) {
            Some(k) => Some(k),
            None => if lower_text(names[n - 1]) == lower_text(s) {
                Some(n - 1)
            } else {
                None
            },
        }
    }
}

proof fn lemma_first_name_stays(names: Seq<Seq<char>>, s: Seq<char>, n: int, m: int)
    requires
        0 <= n <= m,
        first_name_match(names, s, n) is Some,
    ensures
        first_name_match(names, s, m) == first_name_match(names, s, n),
    decreases m - n,
{
    if m > n {
        lemma_first_name_stays(names, s, n, m - 1);
    }
}

/// The variant an argument names, for a derived argument enum: the index of
/// the first accepted name (variant name, rename or alias) equal to `s`
/// ignoring case.
pub fn arg_enum_index(s: &str, names: &Vec<String>) -> (r: Option<usize>)
    ensures
        match r {
            Some(k) => first_name_match(strs(names@), s@, names@.len() as int) == Some(k as int),
            None => first_name_match(strs(names@), s@, names@.len() as int) is None,
        },
{
    let l = lowercase(s);
    let mut k: usize = 0;
    while k < names.len()
        invariant
            k <= names@.len(),
            l@ == lower_text(s@),
            first_name_match(strs(names@), s@, k as int) is None,
        decreases names@.len() - k,
    {
        let n = lowercase(names[k].as_str());
        assert(strs(names@)[k as int] == names@[k as int]@);
        if str_eq(n.as_str(), l.as_str()) {
            proof {
                assert(first_name_match(strs(names@), s@, k + 1) == Some(k as int));
                lemma_first_name_stays(strs(names@), s@, k + 1, names@.len() as int);
            }
            return Some(k);
        }
        k = k + 1;
    }
    None
}

/// The number of element tokens among the first `n`.
pub open spec fn element_count(tokens: Seq<ArgToken>, n: int) -> nat
    decreases n,
{
    if n <= 0 {
        0
    } else {
        element_count(tokens, n - 1) + if tokens[n - 1] is Element {
            1nat
        } else {
            0nat
        }
    }
}

proof fn lemma_scan_accounts(tokens: Seq<ArgToken>, sw: Seq<Switch>, lead_only: bool, n: int)
    requires
        0 <= n <= tokens.len(),
    ensures
        scan_fold(tokens, sw, lead_only, n).words.len() + scan_fold(tokens, sw, lead_only, n).flag_words
            + element_count(tokens, n) == n + if scan_fold(tokens, sw, lead_only, n).skip {
            1int
        } else {
            0int
        },
        scan_fold(tokens, sw, lead_only, n).skip ==> n < tokens.len() && value_word(tokens[n]) is Some,
    decreases n,
{
    if n > 0 {
        lemma_scan_accounts(tokens, sw, lead_only, n - 1);
        let st = scan_fold(tokens, sw, lead_only, n - 1);
        if !st.skip {
            match tokens[n - 1] {
                ArgToken::Element(_) => {},
                ArgToken::Word(w) => {},
            }
        }
    }
}

/// The scan accounts for every token exactly once: each word is a switch,
/// an option's value or a plain word, and elements are left to the element
/// fields.
pub proof fn law_scan_accounts(tokens: Seq<ArgToken>, sw: Seq<Switch>, lead_only: bool)
    ensures
        scan_fold(tokens, sw, lead_only, tokens.len() as int).words.len() + scan_fold(
            tokens,
            sw,
            lead_only,
            tokens.len() as int,
        ).flag_words + element_count(tokens, tokens.len() as int) == tokens.len(),
{
    lemma_scan_accounts(tokens, sw, lead_only, tokens.len() as int);
}

} // verus!
