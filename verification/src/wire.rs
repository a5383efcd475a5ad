//! Wire helpers shared by the protocol adapters: standard base64 (RFC 4648
//! alphabet, `=` padding, no line breaks) for the `base64://` media URIs, and
//! the common tail of the HTTP action channel (404, envelope check).
use vstd::prelude::*;
use crate::text::{push_char, str_eq};

verus! {

/// The base64 digit for a 6-bit value `v` (RFC 4648, table 1).
pub open spec fn b64_digit(v: int) -> char {
    if v < 26 {
        (65 + v) as char
    } else if v < 52 {
        (97 + (v - 26)) as char
    } else if v < 62 {
        (48 + (v - 52)) as char
    } else if v == 62 {
        '+'
    } else {
        '/'
    }
}

/// The four digits for one group of 1 to 3 input bytes; missing bytes read as
/// zero, and the digits standing only for missing bytes become `=`.
pub open spec fn b64_group(b0: u8, b1: u8, b2: u8, count: int) -> Seq<char> {
    let d0 = b64_digit((b0 / 4) as int);
    let d1 = b64_digit((b0 % 4) * 16 + b1 / 16);
    let d2 = if count > 1 { b64_digit((b1 % 16) * 4 + b2 / 64) } else { '=' };
    let d3 = if count > 2 { b64_digit((b2 % 64) as int) } else { '=' };
    seq![d0, d1, d2, d3]
}

/// The base64 encoding of `data`, group by group from the front.
pub open spec fn base64_spec(data: Seq<u8>) -> Seq<char>
    decreases data.len(),
{
    if data.len() == 0 {
        Seq::empty()
    } else if data.len() == 1 {
        b64_group(data[0], 0, 0, 1)
    } else if data.len() == 2 {
        b64_group(data[0], data[1], 0, 2)
    } else {
        b64_group(data[0], data[1], data[2], 3) + base64_spec(data.subrange(3, data.len() as int))
    }
}

/// The encoding has four characters for every started group of three bytes.
pub proof fn law_base64_len(data: Seq<u8>)
    ensures
        base64_spec(data).len() == 4 * ((data.len() + 2) / 3),
    decreases data.len(),
{
    if data.len() >= 3 {
        law_base64_len(data.subrange(3, data.len() as int));
    }
}

fn digit(v: u8) -> (c: char)
    requires
        v < 64,
    ensures
        c == b64_digit(v as int),
{
    if v < 26 {
        (65u8 + v) as char
    } else if v < 52 {
        (97u8 + (v - 26)) as char
    } else if v < 62 {
        (48u8 + (v - 52)) as char
    } else if v == 62 {
        '+'
    } else {
        '/'
    }
}

/// Base64-encodes `data` with the standard alphabet and `=` padding.
pub fn base64_encode(data: &[u8]) -> (out: String)
    ensures
        out@ == base64_spec(data@),
{
    let mut out = String::new();
    let n = data.len();
    let mut i: usize = 0;
    assert(data@.subrange(0, n as int) == data@);
    while i < n
        invariant
            n == data@.len(),
            i <= n,
            base64_spec(data@) == out@ + base64_spec(data@.subrange(i as int, n as int)),
        decreases n - i,
    {
        let ghost rest = data@.subrange(i as int, n as int);
        let count: usize = if n - i >= 3 { 3 } else { n - i };
        let b0 = data[i];
        let b1: u8 = if count > 1 { data[i + 1] } else { 0 };
        let b2: u8 = if count > 2 { data[i + 2] } else { 0 };
        let ghost group = b64_group(b0, b1, b2, count as int);
        let ghost out0 = out@;
        push_char(&mut out, digit(b0 / 4));
        push_char(&mut out, digit((b0 % 4) * 16 + b1 / 16));
        if count > 1 {
            push_char(&mut out, digit((b1 % 16) * 4 + b2 / 64));
        } else {
            push_char(&mut out, '=');
        }
        if count > 2 {
            push_char(&mut out, digit(b2 % 64));
        } else {
            push_char(&mut out, '=');
        }
        assert(out@ == out0 + group);
        if count == 3 {
            assert(rest.subrange(3, rest.len() as int) == data@.subrange(i + 3, n as int));
            assert(base64_spec(rest) == group + base64_spec(data@.subrange(i + 3, n as int)));
        } else {
            assert(data@.subrange(i + count, n as int) == Seq::<u8>::empty());
            assert(base64_spec(rest) == group);
        }
        i = i + count;
    }
    assert(data@.subrange(n as int, n as int) == Seq::<u8>::empty());
    out
}

/// The uniform view of an HTTP action response envelope: status string
/// (success is `"ok"`), return code (success is 0), payload, failure text and
/// the caller's classification of the return code.
pub struct Envelope<D, K> {
    pub status: String,
    pub retcode: i64,
    pub data: Option<D>,
    pub message: Option<String>,
    pub classify: K,
}

/// Why an HTTP action failed.
pub enum ActionError<K, E> {
    /// HTTP 404: the action is unknown to the server.
    Unsupported(String),
    /// The body did not parse (the parser's error, passed through).
    Parse(E),
    /// The envelope reports a failure.
    Action { retcode: i64, message: String, kind: K },
}

/// The envelope reports success.
pub open spec fn envelope_ok<D, K>(env: Envelope<D, K>) -> bool {
    env.status@ == "ok"@ && env.retcode == 0
}

/// What a parse result of the body becomes: the payload (`None` standing for
/// null) of a successful envelope; the parser's error; or the envelope's
/// failure with its text (empty without one) and classification.
pub open spec fn envelope_outcome<D, K, E>(res: Result<Envelope<D, K>, E>, r: Result<Option<D>, ActionError<K, E>>) -> bool {
    match res {
        Err(e) => r == Err::<Option<D>, ActionError<K, E>>(ActionError::Parse(e)),
        Ok(env) => if envelope_ok(env) {
            r == Ok::<Option<D>, ActionError<K, E>>(env.data)
        } else {
            match r {
                Err(ActionError::Action { retcode, message, kind }) => retcode == env.retcode && kind == env.classify
                    && message@ == match env.message {
                    Some(m) => m@,
                    None => Seq::empty(),
                },
                _ => false,
            }
        },
    }
}

/// The common tail of the HTTP action channel: a 404 is an unsupported
/// action; otherwise the body is parsed by `parse` (its error passed through)
/// and the envelope checked.
pub fn http_action_envelope<D, K, E, P: FnOnce(&str) -> Result<Envelope<D, K>, E>>(
    action: &str,
    status: u16,
    body: &str,
    parse: P,
) -> (r: Result<Option<D>, ActionError<K, E>>)
    requires
        status != 404 ==> parse.requires((body,)),
    ensures
        status == 404 ==> (r matches Err(ActionError::Unsupported(a)) && a@ == action@),
        status != 404 ==> exists|res: Result<Envelope<D, K>, E>| parse.ensures((body,), res) && envelope_outcome(res, r),
{
    if status == 404 {
        return Err(ActionError::Unsupported(action.to_owned()));
    }
    let res = parse(body);
    let ghost res0 = res;
    match res {
        Err(e) => {
            let r: Result<Option<D>, ActionError<K, E>> = Err(ActionError::Parse(e));
            assert(envelope_outcome(res0, r));
            r
        },
        Ok(env) => {
            proof {
                reveal_strlit("ok");
            }
            if str_eq(env.status.as_str(), "ok") && env.retcode == 0 {
                let r: Result<Option<D>, ActionError<K, E>> = Ok(env.data);
                assert(envelope_outcome(res0, r));
                r
            } else {
                let message = match env.message {
                    Some(m) => m,
                    None => String::new(),
                };
                let r: Result<Option<D>, ActionError<K, E>> = Err(
                    ActionError::Action { retcode: env.retcode, message, kind: env.classify },
                );
                assert(envelope_outcome(res0, r));
                r
            }
        },
    }
}

} // verus!
