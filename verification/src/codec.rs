//! The request/response wire protocol.
//!
//! Inbound frames carry one JSON object with exactly the five members
//! `"method"` (the string `"led"`), `"led"`, `"r"`, `"g"` and `"b"` (integers
//! in `[0, 255]`), in any order, with optional blanks between tokens.
//! `decode` turns such a frame into a [`CURequest`]; anything else fails with
//! a [`ProtocolError`] carrying a diagnostic. Outbound frames are
//! `{"success":true}` on success and `{"success":false,"error":"..."}` on
//! failure, with the error text JSON-escaped. The command written to the
//! hardware is one JSON object `{"led":n,"r":n,"g":n,"b":n,"w":n}`.
//!
//! Everything here works on plain UTF-8 bytes; the grammar below is stated by
//! spec functions and each executable function is proved to follow them.

use crate::color::{rgbw_spec, Rgbw};
use vstd::prelude::*;
use vstd::string::StringSliceAdditionalSpecFns;

verus! {

/// A decoded request: one command kind today, a per-LED color set.
#[derive(Clone, Copy, PartialEq, Eq, Structural, Debug)]
pub enum CURequest {
    Led { led: u8, r: u8, g: u8, b: u8 },
}

/// A response to the client: a success flag, plus a description on failure.
#[derive(Clone, Debug)]
pub enum CUResponse {
    Success { success: bool },
    Error { success: bool, error: Vec<u8> },
}

/// Why an inbound frame was rejected.
#[derive(Clone, Copy, PartialEq, Eq, Structural, Debug)]
pub enum ProtocolError {
    /// The frame is not one well-formed object of the grammar.
    Syntax,
    /// An object member has a name the protocol does not know.
    UnknownKey,
    /// The `method` member names a command kind the protocol does not know.
    UnknownMethod,
    /// A color or index value does not fit in `[0, 255]`.
    ValueOutOfRange,
    /// An object member is given twice.
    DuplicateKey,
    /// A required member is missing.
    MissingField,
}

pub const QUOTE: u8 = 34;
pub const COMMA: u8 = 44;
pub const COLON: u8 = 58;
pub const BACKSLASH: u8 = 92;
pub const LBRACE: u8 = 123;
pub const RBRACE: u8 = 125;

/// Blank bytes the grammar allows between tokens.
pub open spec fn is_ws(c: u8) -> bool {
    c == 32 || c == 9 || c == 10 || c == 13
}

pub open spec fn is_digit(c: u8) -> bool {
    48 <= c <= 57
}

/// First position at or after `i` that does not hold a blank.
pub open spec fn skip_ws(s: Seq<u8>, i: int) -> int
    decreases s.len() - i,
{
    if 0 <= i < s.len() && is_ws(s[i]) {
        skip_ws(s, i + 1)
    } else {
        i
    }
}

/// The content of a string token whose opening quote stands just before `i`:
/// plain bytes up to the closing quote. Escapes, control bytes and an
/// unterminated string are malformed.
pub open spec fn scan_string(s: Seq<u8>, i: int) -> Option<(Seq<u8>, int)>
    decreases s.len() - i,
{
    if i < 0 || i >= s.len() {
        None
    } else if s[i] == QUOTE {
        Some((Seq::empty(), i + 1))
    } else if s[i] == BACKSLASH || s[i] < 32 {
        None
    } else {
        match scan_string(s, i + 1) {
            Some((rest, j)) => Some((seq![s[i]].add(rest), j)),
            None => None,
        }
    }
}

/// A string token at `i`: content and the position after the closing quote.
pub open spec fn parse_string(s: Seq<u8>, i: int) -> Option<(Seq<u8>, int)> {
    if 0 <= i < s.len() && s[i] == QUOTE {
        scan_string(s, i + 1)
    } else {
        None
    }
}

/// First position at or after `i` that does not hold a decimal digit.
pub open spec fn scan_digits(s: Seq<u8>, i: int) -> int
    decreases s.len() - i,
{
    if 0 <= i < s.len() && is_digit(s[i]) {
        scan_digits(s, i + 1)
    } else {
        i
    }
}

/// Value of the digit run `s[i..j]`.
pub open spec fn digits_val(s: Seq<u8>, i: int, j: int) -> nat
    decreases j - i,
{
    if i >= j {
        0
    } else {
        digits_val(s, i, j - 1) * 10 + (s[j - 1] - 48) as nat
    }
}

/// A non-negative integer token at `i`: its value and the position after its
/// last digit. A leading zero before further digits is malformed.
pub open spec fn parse_number(s: Seq<u8>, i: int) -> Option<(nat, int)> {
    let j = scan_digits(s, i);
    if j == i {
        None
    } else if s[i] == 48 && j > i + 1 {
        None
    } else {
        Some((digits_val(s, i, j), j))
    }
}

/// Member names the protocol knows, numbered; -1 for any other.
pub open spec fn key_id(k: Seq<u8>) -> int {
    if k == "method".spec_bytes() {
        0
    } else if k == "led".spec_bytes() {
        1
    } else if k == "r".spec_bytes() {
        2
    } else if k == "g".spec_bytes() {
        3
    } else if k == "b".spec_bytes() {
        4
    } else {
        -1
    }
}

/// One `"name": value` member at `i`: the member's number, its value (0 for
/// `method`, whose only valid value is the string `"led"`), and the position
/// after the value. Unknown names, out-of-range values and a wrong method
/// string are all malformed.
pub open spec fn parse_pair(s: Seq<u8>, i: int) -> Option<(int, u8, int)> {
    match parse_string(s, i) {
        None => None,
        Some((key, j)) => {
            let k = key_id(key);
            if k < 0 {
                None
            } else {
                let j1 = skip_ws(s, j);
                if !(j1 < s.len() && s[j1] == COLON) {
                    None
                } else {
                    let j2 = skip_ws(s, j1 + 1);
                    if k == 0 {
                        match parse_string(s, j2) {
                            None => None,
                            Some((v, j3)) => if v == "led".spec_bytes() {
                                Some((0, 0u8, j3))
                            } else {
                                None
                            },
                        }
                    } else {
                        match parse_number(s, j2) {
                            None => None,
                            Some((v, j3)) => if v <= 255 {
                                Some((k, v as u8, j3))
                            } else {
                                None
                            },
                        }
                    }
                }
            }
        },
    }
}

/// Which members a partially parsed request has filled in so far.
#[derive(Clone, Copy, Debug)]
pub struct Fields {
    pub method: bool,
    pub led: Option<u8>,
    pub r: Option<u8>,
    pub g: Option<u8>,
    pub b: Option<u8>,
}

pub open spec fn fields_init() -> Fields {
    Fields { method: false, led: None, r: None, g: None, b: None }
}

/// Records member `k` with value `v`; a member seen twice is malformed.
pub open spec fn set_field(st: Fields, k: int, v: u8) -> Option<Fields> {
    if k == 0 {
        if st.method {
            None
        } else {
            Some(Fields { method: true, ..st })
        }
    } else if k == 1 {
        if st.led is Some {
            None
        } else {
            Some(Fields { led: Some(v), ..st })
        }
    } else if k == 2 {
        if st.r is Some {
            None
        } else {
            Some(Fields { r: Some(v), ..st })
        }
    } else if k == 3 {
        if st.g is Some {
            None
        } else {
            Some(Fields { g: Some(v), ..st })
        }
    } else {
        if st.b is Some {
            None
        } else {
            Some(Fields { b: Some(v), ..st })
        }
    }
}

/// Exactly `n` members starting at `i`, separated by commas, folded into the
/// field record.
pub open spec fn parse_members(s: Seq<u8>, i: int, n: nat, st: Fields) -> Option<(Fields, int)>
    decreases n,
{
    if n == 0 {
        Some((st, i))
    } else {
        match parse_pair(s, i) {
            None => None,
            Some((k, v, j)) => match set_field(st, k, v) {
                None => None,
                Some(st2) => if n == 1 {
                    Some((st2, j))
                } else {
                    let j1 = skip_ws(s, j);
                    if j1 < s.len() && s[j1] == COMMA {
                        parse_members(s, skip_ws(s, j1 + 1), (n - 1) as nat, st2)
                    } else {
                        None
                    }
                },
            },
        }
    }
}

/// The whole inbound grammar: one object holding the five members once each,
/// nothing but blanks around it.
pub open spec fn decode_spec(s: Seq<u8>) -> Option<CURequest> {
    let i0 = skip_ws(s, 0);
    if !(i0 < s.len() && s[i0] == LBRACE) {
        None
    } else {
        match parse_members(s, skip_ws(s, i0 + 1), 5, fields_init()) {
            None => None,
            Some((st, j)) => {
                let j1 = skip_ws(s, j);
                if !(j1 < s.len() && s[j1] == RBRACE) {
                    None
                } else if skip_ws(s, j1 + 1) != s.len() {
                    None
                } else if st.method && st.led is Some && st.r is Some && st.g is Some
                    && st.b is Some {
                    Some(
                        CURequest::Led {
                            led: st.led->0,
                            r: st.r->0,
                            g: st.g->0,
                            b: st.b->0,
                        },
                    )
                } else {
                    None
                }
            },
        }
    }
}

fn skip_ws_exec(s: &Vec<u8>, i: usize) -> (j: usize)
    requires
        i <= s@.len(),
    ensures
        j as int == skip_ws(s@, i as int),
        i <= j <= s@.len(),
{
    let mut j: usize = i;
    while j < s.len() && (s[j] == 32 || s[j] == 9 || s[j] == 10 || s[j] == 13)
        invariant
            i <= j <= s@.len(),
            skip_ws(s@, i as int) == skip_ws(s@, j as int),
        decreases s@.len() - j,
    {
        j = j + 1;
    }
    j
}

/// Helper fact: continuing a string scan with a longer accumulator.
spec fn scan_cont(s: Seq<u8>, start: int, acc: Seq<u8>, j: int) -> bool {
    scan_string(s, start) == (match scan_string(s, j) {
        Some((rest, k)) => Some((acc + rest, k)),
        None => None,
    })
}

fn parse_string_exec(s: &Vec<u8>, i: usize) -> (r: Option<(Vec<u8>, usize)>)
    requires
        i <= s@.len(),
    ensures
        match r {
            Some(p) => parse_string(s@, i as int) == Some((p.0@, p.1 as int)) && i < p.1 <= s@.len(),
            None => parse_string(s@, i as int) is None,
        },
{
    if i >= s.len() || s[i] != QUOTE {
        return None;
    }
    let mut content: Vec<u8> = Vec::new();
    let mut j: usize = i + 1;
    loop
        invariant
            i + 1 <= j <= s@.len(),
            scan_cont(s@, i as int + 1, content@, j as int),
            parse_string(s@, i as int) == scan_string(s@, i as int + 1),
        decreases s@.len() - j,
    {
        if j >= s.len() {
            assert(scan_string(s@, j as int) is None);
            return None;
        }
        let c = s[j];
        if c == QUOTE {
            assert(scan_string(s@, j as int) == Some((Seq::<u8>::empty(), j as int + 1)));
            assert(content@ + Seq::<u8>::empty() =~= content@);
            return Some((content, j + 1));
        }
        if c == BACKSLASH || c < 32 {
            assert(scan_string(s@, j as int) is None);
            return None;
        }
        proof {
            let rest_opt = scan_string(s@, j as int + 1);
            if rest_opt is Some {
                let (rest, k) = rest_opt->0;
                assert(scan_string(s@, j as int) == Some((seq![s@[j as int]].add(rest), k)));
                assert(content@ + (seq![s@[j as int]] + rest) =~= content@.push(s@[j as int])
                    + rest);
            } else {
                assert(scan_string(s@, j as int) is None);
            }
        }
        content.push(c);
        j = j + 1;
    }
}

fn parse_number_exec(s: &Vec<u8>, i: usize) -> (r: Result<(u16, usize), ProtocolError>)
    requires
        i <= s@.len(),
    ensures
        match r {
            Ok(p) => parse_number(s@, i as int) == Some((p.0 as nat, p.1 as int)) && p.0 <= 255
                && i < p.1 <= s@.len(),
            Err(_) => parse_number(s@, i as int) is None || (parse_number(s@, i as int)->0).0
                > 255,
        },
{
    let mut j: usize = i;
    let mut acc: u32 = 0;
    while j < s.len() && 48 <= s[j] && s[j] <= 57
        invariant
            i <= j <= s@.len(),
            scan_digits(s@, i as int) == scan_digits(s@, j as int),
            acc <= 256,
            digits_val(s@, i as int, j as int) <= 255 ==> acc == digits_val(s@, i as int, j as int),
            digits_val(s@, i as int, j as int) > 255 ==> acc == 256,
        decreases s@.len() - j,
    {
        let d: u32 = (s[j] - 48) as u32;
        proof {
            assert(digits_val(s@, i as int, j as int + 1) == digits_val(s@, i as int, j as int) * 10
                + (s@[j as int] - 48) as nat);
        }
        if acc > 255 {
            acc = 256;
        } else {
            acc = acc * 10 + d;
            if acc > 255 {
                acc = 256;
            }
        }
        j = j + 1;
    }
    assert(scan_digits(s@, j as int) == j as int);
    if j == i {
        return Err(ProtocolError::Syntax);
    }
    if s[i] == 48 && j > i + 1 {
        return Err(ProtocolError::Syntax);
    }
    if acc > 255 {
        return Err(ProtocolError::ValueOutOfRange);
    }
    Ok((acc as u16, j))
}

/// Turns the bytes of an ASCII string literal into a fresh vector.
pub(crate) fn lit_vec(s: &str) -> (r: Vec<u8>)
    ensures
        r@ == s.spec_bytes(),
{
    vstd::slice::slice_to_vec(s.as_bytes())
}

/// Appends the bytes of a string literal.
pub(crate) fn push_lit(out: &mut Vec<u8>, s: &str)
    ensures
        final(out)@ == old(out)@ + s.spec_bytes(),
{
    let bytes: Vec<u8> = lit_vec(s);
    let mut k: usize = 0;
    while k < bytes.len()
        invariant
            k <= bytes@.len(),
            bytes@ == s.spec_bytes(),
            out@ == old(out)@ + s.spec_bytes().take(k as int),
        decreases bytes@.len() - k,
    {
        out.push(bytes[k]);
        assert(old(out)@ + s.spec_bytes().take(k as int) + seq![s.spec_bytes()[k as int]]
            =~= old(out)@ + s.spec_bytes().take(k as int + 1));
        k = k + 1;
    }
    assert(s.spec_bytes().take(s.spec_bytes().len() as int) =~= s.spec_bytes());
}

/// Appends a copy of another byte string.
pub(crate) fn push_bytes(out: &mut Vec<u8>, other: &Vec<u8>)
    ensures
        final(out)@ == old(out)@ + other@,
{
    let mut k: usize = 0;
    while k < other.len()
        invariant
            k <= other@.len(),
            out@ == old(out)@ + other@.take(k as int),
        decreases other@.len() - k,
    {
        out.push(other[k]);
        assert(old(out)@ + other@.take(k as int) + seq![other@[k as int]] =~= old(out)@
            + other@.take(k as int + 1));
        k = k + 1;
    }
    assert(other@.take(other@.len() as int) =~= other@);
}

fn bytes_eq_lit(v: &Vec<u8>, s: &str) -> (b: bool)
    ensures
        b == (v@ == s.spec_bytes()),
{
    let bytes: Vec<u8> = lit_vec(s);
    if v.len() != bytes.len() {
        assert(v@ != s.spec_bytes());
        return false;
    }
    let mut k: usize = 0;
    while k < bytes.len()
        invariant
            k <= bytes@.len(),
            v@.len() == bytes@.len(),
            bytes@ == s.spec_bytes(),
            forall|m: int| 0 <= m < k ==> v@[m] == bytes@[m],
        decreases bytes@.len() - k,
    {
        if v[k] != bytes[k] {
            assert(v@ != s.spec_bytes());
            return false;
        }
        k = k + 1;
    }
    assert(v@ =~= s.spec_bytes());
    true
}

fn key_id_exec(k: &Vec<u8>) -> (r: Option<u8>)
    ensures
        r == (if key_id(k@) < 0 {
            None
        } else {
            Some(key_id(k@) as u8)
        }),
{
    if bytes_eq_lit(k, "method") {
        Some(0)
    } else if bytes_eq_lit(k, "led") {
        Some(1)
    } else if bytes_eq_lit(k, "r") {
        Some(2)
    } else if bytes_eq_lit(k, "g") {
        Some(3)
    } else if bytes_eq_lit(k, "b") {
        Some(4)
    } else {
        None
    }
}

fn parse_pair_exec(s: &Vec<u8>, i: usize) -> (r: Result<(u8, u8, usize), ProtocolError>)
    requires
        i <= s@.len(),
    ensures
        match r {
            Ok(t) => parse_pair(s@, i as int) == Some((t.0 as int, t.1, t.2 as int)) && t.2
                <= s@.len(),
            Err(_) => parse_pair(s@, i as int) is None,
        },
{
    let key = match parse_string_exec(s, i) {
        None => {
            return Err(ProtocolError::Syntax);
        },
        Some(p) => p,
    };
    let k = match key_id_exec(&key.0) {
        None => {
            return Err(ProtocolError::UnknownKey);
        },
        Some(k) => k,
    };
    let j1 = skip_ws_exec(s, key.1);
    if !(j1 < s.len() && s[j1] == COLON) {
        return Err(ProtocolError::Syntax);
    }
    let j2 = skip_ws_exec(s, j1 + 1);
    if k == 0 {
        match parse_string_exec(s, j2) {
            None => Err(ProtocolError::Syntax),
            Some(v) => {
                if bytes_eq_lit(&v.0, "led") {
                    Ok((0, 0, v.1))
                } else {
                    Err(ProtocolError::UnknownMethod)
                }
            },
        }
    } else {
        match parse_number_exec(s, j2) {
            Err(e) => Err(e),
            Ok(v) => Ok((k, v.0 as u8, v.1)),
        }
    }
}

fn set_field_exec(st: Fields, k: u8, v: u8) -> (r: Option<Fields>)
    requires
        k <= 4,
    ensures
        r == set_field(st, k as int, v),
{
    if k == 0 {
        if st.method {
            None
        } else {
            Some(Fields { method: true, ..st })
        }
    } else if k == 1 {
        if st.led.is_some() {
            None
        } else {
            Some(Fields { led: Some(v), ..st })
        }
    } else if k == 2 {
        if st.r.is_some() {
            None
        } else {
            Some(Fields { r: Some(v), ..st })
        }
    } else if k == 3 {
        if st.g.is_some() {
            None
        } else {
            Some(Fields { g: Some(v), ..st })
        }
    } else {
        if st.b.is_some() {
            None
        } else {
            Some(Fields { b: Some(v), ..st })
        }
    }
}

/// Decodes one inbound text frame. Succeeds exactly on the frames the
/// grammar in `decode_spec` accepts, and returns the decoded command.
pub fn decode(text: &Vec<u8>) -> (res: Result<CURequest, ProtocolError>)
    ensures
        match res {
            Ok(req) => decode_spec(text@) == Some(req),
            Err(_) => decode_spec(text@) is None,
        },
{
    let i0 = skip_ws_exec(text, 0);
    if !(i0 < text.len() && text[i0] == LBRACE) {
        return Err(ProtocolError::Syntax);
    }
    let ghost start = skip_ws(text@, i0 as int + 1);
    let mut i = skip_ws_exec(text, i0 + 1);
    let mut st = Fields { method: false, led: None, r: None, g: None, b: None };
    let mut n: u8 = 5;
    while n > 0
        invariant
            i <= text@.len(),
            n <= 5,
            i0 as int == skip_ws(text@, 0),
            i0 < text@.len() && text@[i0 as int] == LBRACE,
            start == skip_ws(text@, i0 as int + 1),
            parse_members(text@, start, 5, fields_init()) == parse_members(
                text@,
                i as int,
                n as nat,
                st,
            ),
        decreases n,
    {
        let pair = match parse_pair_exec(text, i) {
            Err(e) => {
                assert(parse_members(text@, i as int, n as nat, st) is None);
                assert(decode_spec(text@) is None);
                return Err(e);
            },
            Ok(p) => p,
        };
        let st2 = match set_field_exec(st, pair.0, pair.1) {
            None => {
                assert(parse_members(text@, i as int, n as nat, st) is None);
                assert(decode_spec(text@) is None);
                return Err(ProtocolError::DuplicateKey);
            },
            Some(st2) => st2,
        };
        if n > 1 {
            let j1 = skip_ws_exec(text, pair.2);
            if !(j1 < text.len() && text[j1] == COMMA) {
                assert(parse_members(text@, i as int, n as nat, st) is None);
                assert(decode_spec(text@) is None);
                return Err(ProtocolError::Syntax);
            }
            i = skip_ws_exec(text, j1 + 1);
            n = n - 1;
        } else {
            i = pair.2;
            n = 0;
        }
        st = st2;
    }
    assert(parse_members(text@, start, 5, fields_init()) == Some((st, i as int)));
    let j1 = skip_ws_exec(text, i);
    if !(j1 < text.len() && text[j1] == RBRACE) {
        return Err(ProtocolError::Syntax);
    }
    let j2 = skip_ws_exec(text, j1 + 1);
    if j2 != text.len() {
        return Err(ProtocolError::Syntax);
    }
    match (st.method, st.led, st.r, st.g, st.b) {
        (true, Some(led), Some(r), Some(g), Some(b)) => Ok(CURequest::Led { led, r, g, b }),
        _ => Err(ProtocolError::MissingField),
    }
}

/// The ASCII digit for a value below 16, lower case above 9.
pub open spec fn hex_digit(n: u8) -> u8 {
    if n < 10 {
        (48 + n) as u8
    } else {
        (87 + n) as u8
    }
}

/// How one byte appears inside a JSON string: quote, backslash and control
/// bytes are escaped, everything else stands as it is.
pub open spec fn escape_byte(c: u8) -> Seq<u8> {
    if c == QUOTE {
        seq![BACKSLASH, QUOTE]
    } else if c == BACKSLASH {
        seq![BACKSLASH, BACKSLASH]
    } else if c == 8 {
        seq![BACKSLASH, 98]
    } else if c == 12 {
        seq![BACKSLASH, 102]
    } else if c == 10 {
        seq![BACKSLASH, 110]
    } else if c == 13 {
        seq![BACKSLASH, 114]
    } else if c == 9 {
        seq![BACKSLASH, 116]
    } else if c < 32 {
        seq![BACKSLASH, 117, 48, 48, hex_digit(c / 16), hex_digit(c % 16)]
    } else {
        seq![c]
    }
}

/// The escaped form of everything from position `i` on.
pub open spec fn json_escape_from(s: Seq<u8>, i: int) -> Seq<u8>
    decreases s.len() - i,
{
    if i < 0 || i >= s.len() {
        Seq::empty()
    } else {
        escape_byte(s[i]) + json_escape_from(s, i + 1)
    }
}

/// A byte string as it appears inside a JSON string value.
pub open spec fn json_escape(s: Seq<u8>) -> Seq<u8> {
    json_escape_from(s, 0)
}

/// Escaping never erases text: the escaped form is at least as long.
pub proof fn lemma_json_escape_from_len(s: Seq<u8>, i: int)
    requires
        0 <= i,
    ensures
        json_escape_from(s, i).len() >= s.len() - i,
    decreases s.len() - i,
{
    if i < s.len() {
        lemma_json_escape_from_len(s, i + 1);
    }
}

/// A non-empty error text stays non-empty once escaped.
pub proof fn lemma_json_escape_keeps_text(s: Seq<u8>)
    ensures
        json_escape(s).len() >= s.len(),
        s.len() > 0 ==> json_escape(s).len() > 0,
{
    lemma_json_escape_from_len(s, 0);
}

fn hex_digit_exec(n: u8) -> (r: u8)
    requires
        n < 16,
    ensures
        r == hex_digit(n),
{
    if n < 10 {
        48 + n
    } else {
        87 + n
    }
}

/// Appends the escaped form of one byte.
fn push_escaped(out: &mut Vec<u8>, c: u8)
    ensures
        final(out)@ == old(out)@ + escape_byte(c),
{
    if c == QUOTE || c == BACKSLASH {
        out.push(BACKSLASH);
        out.push(c);
    } else if c == 8 {
        out.push(BACKSLASH);
        out.push(98);
    } else if c == 12 {
        out.push(BACKSLASH);
        out.push(102);
    } else if c == 10 {
        out.push(BACKSLASH);
        out.push(110);
    } else if c == 13 {
        out.push(BACKSLASH);
        out.push(114);
    } else if c == 9 {
        out.push(BACKSLASH);
        out.push(116);
    } else if c < 32 {
        out.push(BACKSLASH);
        out.push(117);
        out.push(48);
        out.push(48);
        out.push(hex_digit_exec(c / 16));
        out.push(hex_digit_exec(c % 16));
    } else {
        out.push(c);
    }
    assert(final(out)@ =~= old(out)@ + escape_byte(c));
}

/// Appends the escaped form of a whole byte string.
fn push_escaped_all(out: &mut Vec<u8>, msg: &Vec<u8>)
    ensures
        final(out)@ == old(out)@ + json_escape(msg@),
{
    let mut k: usize = 0;
    while k < msg.len()
        invariant
            k <= msg@.len(),
            out@ + json_escape_from(msg@, k as int) =~= old(out)@ + json_escape(msg@),
        decreases msg@.len() - k,
    {
        let ghost before = out@;
        push_escaped(out, msg[k]);
        proof {
            assert(json_escape_from(msg@, k as int) == escape_byte(msg@[k as int])
                + json_escape_from(msg@, k as int + 1));
            assert(out@ + json_escape_from(msg@, k as int + 1) =~= before + json_escape_from(
                msg@,
                k as int,
            ));
        }
        k = k + 1;
    }
    assert(json_escape_from(msg@, msg@.len() as int) =~= Seq::<u8>::empty());
    assert(final(out)@ =~= old(out)@ + json_escape(msg@));
}

/// The bytes of a successful response: `{"success":true}`.
pub open spec fn success_response_bytes() -> Seq<u8> {
    "{\"success\":".spec_bytes() + "true".spec_bytes() + "}".spec_bytes()
}

/// The bytes of a failed response: `{"success":false,"error":"..."}` with the
/// description escaped into the string value.
pub open spec fn error_response_bytes(msg: Seq<u8>) -> Seq<u8> {
    "{\"success\":".spec_bytes() + "false".spec_bytes() + ",\"error\":\"".spec_bytes()
        + json_escape(msg) + "\"}".spec_bytes()
}

/// What any response value serializes to.
pub open spec fn response_bytes(resp: CUResponse) -> Seq<u8> {
    match resp {
        CUResponse::Success { success } => "{\"success\":".spec_bytes() + (if success {
            "true".spec_bytes()
        } else {
            "false".spec_bytes()
        }) + "}".spec_bytes(),
        CUResponse::Error { success, error } => "{\"success\":".spec_bytes() + (if success {
            "true".spec_bytes()
        } else {
            "false".spec_bytes()
        }) + ",\"error\":\"".spec_bytes() + json_escape(error@) + "\"}".spec_bytes(),
    }
}

impl CUResponse {
    /// The response sent after a command went through.
    pub fn success() -> (r: CUResponse)
        ensures
            r == (CUResponse::Success { success: true }),
    {
        CUResponse::Success { success: true }
    }

    /// The response sent after a command failed, carrying its description.
    pub fn error(msg: Vec<u8>) -> (r: CUResponse)
        ensures
            r == (CUResponse::Error { success: false, error: msg }),
    {
        CUResponse::Error { success: false, error: msg }
    }

    /// Serializes the response to the text frame sent back to the client.
    pub fn encode(&self) -> (r: Vec<u8>)
        ensures
            r@ == response_bytes(*self),
            self matches CUResponse::Success { success: true } ==> r@
                == success_response_bytes(),
            self matches CUResponse::Error { success: false, error } ==> r@
                == error_response_bytes(error@),
    {
        let mut out: Vec<u8> = Vec::new();
        push_lit(&mut out, "{\"success\":");
        match self {
            CUResponse::Success { success } => {
                if *success {
                    push_lit(&mut out, "true");
                } else {
                    push_lit(&mut out, "false");
                }
                push_lit(&mut out, "}");
            },
            CUResponse::Error { success, error } => {
                if *success {
                    push_lit(&mut out, "true");
                } else {
                    push_lit(&mut out, "false");
                }
                push_lit(&mut out, ",\"error\":\"");
                push_escaped_all(&mut out, error);
                push_lit(&mut out, "\"}");
            },
        }
        assert(out@ =~= response_bytes(*self));
        out
    }
}

/// A success always serializes to exactly `{"success":true}`.
pub proof fn lemma_success_is_canonical()
    ensures
        success_response_bytes() == "{\"success\":true}".spec_bytes(),
{
    reveal_strlit("{\"success\":");
    reveal_strlit("true");
    reveal_strlit("}");
    reveal_strlit("{\"success\":true}");
    broadcast use vstd::string::is_ascii_spec_bytes;

    assert(vstd::string::is_ascii("{\"success\":"));
    assert(vstd::string::is_ascii("true"));
    assert(vstd::string::is_ascii("}"));
    assert(vstd::string::is_ascii("{\"success\":true}"));
    assert(success_response_bytes() =~= "{\"success\":true}".spec_bytes());
}

/// A failure with a description always serializes with the flag `false` and
/// a non-empty error text between the closing quotes.
pub proof fn lemma_failure_keeps_description(msg: Seq<u8>)
    requires
        msg.len() > 0,
    ensures
        json_escape(msg).len() > 0,
        error_response_bytes(msg).len() > 0,
{
    lemma_json_escape_keeps_text(msg);
}

/// The decimal digits of an 8-bit value, without padding.
pub open spec fn dec_bytes(n: u8) -> Seq<u8> {
    if n < 10 {
        seq![(48 + n) as u8]
    } else if n < 100 {
        seq![(48 + n / 10) as u8, (48 + n % 10) as u8]
    } else {
        seq![(48 + n / 100) as u8, (48 + (n / 10) % 10) as u8, (48 + n % 10) as u8]
    }
}

/// Appends the decimal digits of an 8-bit value.
fn push_dec(out: &mut Vec<u8>, n: u8)
    ensures
        final(out)@ == old(out)@ + dec_bytes(n),
{
    if n < 10 {
        out.push(48 + n);
    } else if n < 100 {
        out.push(48 + n / 10);
        out.push(48 + n % 10);
    } else {
        out.push(48 + n / 100);
        out.push(48 + (n / 10) % 10);
        out.push(48 + n % 10);
    }
    assert(final(out)@ =~= old(out)@ + dec_bytes(n));
}

/// The command written to the device for one RGBW frame:
/// `{"led":n,"r":n,"g":n,"b":n,"w":n}`.
pub open spec fn device_message(led: u8, c: Rgbw) -> Seq<u8> {
    "{\"led\":".spec_bytes() + dec_bytes(led) + ",\"r\":".spec_bytes() + dec_bytes(c.r)
        + ",\"g\":".spec_bytes() + dec_bytes(c.g) + ",\"b\":".spec_bytes() + dec_bytes(c.b)
        + ",\"w\":".spec_bytes() + dec_bytes(c.w) + "}".spec_bytes()
}

/// Serializes one RGBW frame as the device expects it.
pub fn encode_device_message(led: u8, c: &Rgbw) -> (r: Vec<u8>)
    ensures
        r@ == device_message(led, *c),
{
    let mut out: Vec<u8> = Vec::new();
    push_lit(&mut out, "{\"led\":");
    push_dec(&mut out, led);
    push_lit(&mut out, ",\"r\":");
    push_dec(&mut out, c.r);
    push_lit(&mut out, ",\"g\":");
    push_dec(&mut out, c.g);
    push_lit(&mut out, ",\"b\":");
    push_dec(&mut out, c.b);
    push_lit(&mut out, ",\"w\":");
    push_dec(&mut out, c.w);
    push_lit(&mut out, "}");
    assert(out@ =~= device_message(led, *c));
    out
}

/// The full bytes a decoded request puts on the wire: conversion to RGBW,
/// then the device message.
pub open spec fn command_message(req: CURequest) -> Seq<u8> {
    match req {
        CURequest::Led { led, r, g, b } => device_message(led, rgbw_spec(r, g, b)),
    }
}

/// Converts a request's color and serializes the device command.
pub fn command_bytes(req: &CURequest) -> (out: Vec<u8>)
    ensures
        out@ == command_message(*req),
{
    match req {
        CURequest::Led { led, r, g, b } => {
            let frame = crate::color::rgb_to_rgbw(*r, *g, *b);
            encode_device_message(*led, &frame)
        },
    }
}

/// The diagnostic text of each decode failure.
pub open spec fn protocol_error_text(e: ProtocolError) -> Seq<u8> {
    match e {
        ProtocolError::Syntax => "malformed request".spec_bytes(),
        ProtocolError::UnknownKey => "unrecognized field".spec_bytes(),
        ProtocolError::UnknownMethod => "unrecognized method".spec_bytes(),
        ProtocolError::ValueOutOfRange => "value out of range".spec_bytes(),
        ProtocolError::DuplicateKey => "field given twice".spec_bytes(),
        ProtocolError::MissingField => "missing field".spec_bytes(),
    }
}

/// How a decode failure reads in a response: its class, then the diagnostic.
pub open spec fn protocol_error_description(e: ProtocolError) -> Seq<u8> {
    "protocol error: ".spec_bytes() + protocol_error_text(e)
}

impl ProtocolError {
    /// The human-readable description of this failure; never empty.
    pub fn describe(&self) -> (r: Vec<u8>)
        ensures
            r@ == protocol_error_description(*self),
            r@.len() > 0,
    {
        proof {
            reveal_strlit("protocol error: ");
            broadcast use vstd::string::is_ascii_spec_bytes;

            assert(vstd::string::is_ascii("protocol error: "));
        }
        let mut out: Vec<u8> = Vec::new();
        push_lit(&mut out, "protocol error: ");
        match self {
            ProtocolError::Syntax => push_lit(&mut out, "malformed request"),
            ProtocolError::UnknownKey => push_lit(&mut out, "unrecognized field"),
            ProtocolError::UnknownMethod => push_lit(&mut out, "unrecognized method"),
            ProtocolError::ValueOutOfRange => push_lit(&mut out, "value out of range"),
            ProtocolError::DuplicateKey => push_lit(&mut out, "field given twice"),
            ProtocolError::MissingField => push_lit(&mut out, "missing field"),
        }
        out
    }
}

} // verus!
