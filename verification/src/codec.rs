//! The packet codec: the wire format of the application message
//! carried inside a packet, and of the two-armed acknowledgment
//! envelope.
//!
//! The command is framed as the tagged object
//! `{"set_pixel":{"pixel":<u32>,"color":<u8>}}` with canonical decimal
//! numbers. [`decode_command`] accepts exactly the byte strings that
//! [`encode_command`] produces; everything else is a decode error,
//! which the packet-receive path degrades to a failure acknowledgment.
//! This canonical frame is deliberately the protocol's entire wire
//! surface: the counterparty role builds its packets with this same
//! encoder, so a reordered, padded or otherwise foreign rendering of
//! the message is rejected like any other malformed payload.

use vstd::prelude::*;
use crate::error::ContractError;
use crate::msg::IbcExecuteMsg;

verus! {

/// Whether `b` is an ASCII decimal digit.
pub open spec fn is_digit(b: u8) -> bool {
    0x30 <= b <= 0x39
}

/// The canonical decimal digits of `n`, as ASCII bytes.
pub open spec fn dec_digits(n: nat) -> Seq<u8>
    decreases n,
{
    if n < 10 {
        seq![(0x30 + n) as u8]
    } else {
        dec_digits(n / 10).push((0x30 + n % 10) as u8)
    }
}

/// The numeric value of a sequence of ASCII decimal digits.
pub open spec fn dec_value(s: Seq<u8>) -> int
    decreases s.len(),
{
    if s.len() == 0 {
        0
    } else {
        dec_value(s.drop_last()) * 10 + (s.last() - 0x30)
    }
}

/// A canonical decimal representation: non-empty, all digits, and no
/// leading zero.
pub open spec fn canonical_dec(s: Seq<u8>) -> bool {
    &&& s.len() > 0
    &&& forall|i: int| 0 <= i < s.len() ==> is_digit(#[trigger] s[i])
    &&& (s[0] == 0x30 ==> s.len() == 1)
}

proof fn lemma_dec_digits_props(n: nat)
    ensures
        canonical_dec(dec_digits(n)),
        dec_value(dec_digits(n)) == n,
    decreases n,
{
    if n < 10 {
        let s = dec_digits(n);
        assert(s =~= seq![(0x30 + n) as u8]);
        assert(s.drop_last() =~= Seq::<u8>::empty());
        assert(dec_value(Seq::<u8>::empty()) == 0);
        assert(s.last() == (0x30 + n) as u8);
        assert(dec_value(s) == n);
    } else {
        lemma_dec_digits_props(n / 10);
        let p = dec_digits(n / 10);
        let s = dec_digits(n);
        assert(s == p.push((0x30 + n % 10) as u8));
        assert(s.drop_last() =~= p);
        assert(s.last() == (0x30 + n % 10) as u8);
        vstd::arithmetic::div_mod::lemma_fundamental_div_mod(n as int, 10);
        assert(dec_value(s) == n);
        assert(s[0] == p[0]);
        assert(dec_value(p) == n / 10 && n / 10 >= 1);
        if p[0] == 0x30 {
            assert(p.len() == 1);
            assert(p.drop_last() =~= Seq::<u8>::empty());
            assert(dec_value(Seq::<u8>::empty()) == 0);
            assert(dec_value(p) == p[0] - 0x30);
            assert(false);
        }
        assert(s[0] != 0x30);
    }
}

/// A non-empty digit string without a leading zero has value at least 1.
proof fn lemma_dec_value_pos(s: Seq<u8>)
    requires
        s.len() >= 1,
        forall|i: int| 0 <= i < s.len() ==> is_digit(#[trigger] s[i]),
        s[0] != 0x30,
    ensures
        dec_value(s) >= 1,
    decreases s.len(),
{
    if s.len() == 1 {
        assert(s.drop_last() =~= Seq::<u8>::empty());
        assert(dec_value(Seq::<u8>::empty()) == 0);
        assert(is_digit(s[0]));
        assert(dec_value(s) == s[0] - 0x30);
    } else {
        let p = s.drop_last();
        assert(p[0] == s[0]);
        lemma_dec_value_pos(p);
        assert(is_digit(s[s.len() - 1]));
        assert(dec_value(s) == dec_value(p) * 10 + (s.last() - 0x30));
    }
}

/// Every digit string has a non-negative value.
proof fn lemma_dec_value_nonneg(s: Seq<u8>)
    requires
        forall|i: int| 0 <= i < s.len() ==> is_digit(#[trigger] s[i]),
    ensures
        dec_value(s) >= 0,
    decreases s.len(),
{
    if s.len() > 0 {
        lemma_dec_value_nonneg(s.drop_last());
    }
}

/// Canonical decimal representations are unique: a canonical digit
/// string is exactly `dec_digits` of its value.
proof fn lemma_canonical_dec_unique(s: Seq<u8>)
    requires
        canonical_dec(s),
    ensures
        dec_value(s) >= 0,
        dec_digits(dec_value(s) as nat) == s,
    decreases s.len(),
{
    lemma_dec_value_nonneg(s);
    if s.len() == 1 {
        assert(s.drop_last() =~= Seq::<u8>::empty());
        assert(dec_value(Seq::<u8>::empty()) == 0);
        assert(is_digit(s[0]));
        assert(dec_value(s) == s[0] - 0x30 < 10);
        assert(dec_digits(dec_value(s) as nat) =~= s);
    } else {
        let p = s.drop_last();
        let d = s.last();
        assert(p[0] == s[0]);
        assert(s[0] != 0x30);
        lemma_dec_value_pos(p);
        lemma_canonical_dec_unique(p);
        let v = dec_value(s);
        assert(v == dec_value(p) * 10 + (d - 0x30));
        vstd::arithmetic::div_mod::lemma_fundamental_div_mod_converse(
            v,
            10,
            dec_value(p),
            (d - 0x30) as int,
        );
        assert(v / 10 == dec_value(p) && v % 10 == d - 0x30);
        assert(v >= 10);
        assert(dec_digits(v as nat) == dec_digits(dec_value(p) as nat).push(
            (0x30 + v as nat % 10) as u8,
        ));
        assert(dec_digits(v as nat) =~= s);
    }
}

/// Appends the canonical decimal digits of `n`.
fn push_dec(v: &mut Vec<u8>, n: u32)
    ensures
        final(v)@ == old(v)@ + dec_digits(n as nat),
    decreases n,
{
    if n < 10 {
        v.push(0x30 + n as u8);
        assert(v@ =~= old(v)@ + dec_digits(n as nat));
    } else {
        push_dec(v, n / 10);
        v.push(0x30 + (n % 10) as u8);
        assert(v@ =~= old(v)@ + dec_digits(n as nat));
    }
}

/// The bytes of `{"set_pixel":{"pixel":`, the frame up to the pixel
/// number.
pub open spec fn cmd_prefix() -> Seq<u8> {
    seq![
        123, 34, 115, 101, 116, 95, 112, 105, 120, 101, 108, 34, 58, 123, 34,
        112, 105, 120, 101, 108, 34, 58,
    ]
}

/// The bytes of `,"color":`, the frame between the two numbers.
pub open spec fn cmd_mid() -> Seq<u8> {
    seq![44, 34, 99, 111, 108, 111, 114, 34, 58]
}

/// The bytes of `}}`, closing both objects.
pub open spec fn cmd_suffix() -> Seq<u8> {
    seq![125, 125]
}

/// The wire encoding of a set-pixel command.
pub open spec fn encode_bytes(pixel: u32, color: u8) -> Seq<u8> {
    cmd_prefix() + dec_digits(pixel as nat) + cmd_mid() + dec_digits(color as nat) + cmd_suffix()
}

fn push_cmd_prefix(v: &mut Vec<u8>)
    ensures
        final(v)@ == old(v)@ + cmd_prefix(),
{
    v.push(123);
    v.push(34);
    v.push(115);
    v.push(101);
    v.push(116);
    v.push(95);
    v.push(112);
    v.push(105);
    v.push(120);
    v.push(101);
    v.push(108);
    v.push(34);
    v.push(58);
    v.push(123);
    v.push(34);
    v.push(112);
    v.push(105);
    v.push(120);
    v.push(101);
    v.push(108);
    v.push(34);
    v.push(58);
    assert(v@ =~= old(v)@ + cmd_prefix());
}

fn push_cmd_mid(v: &mut Vec<u8>)
    ensures
        final(v)@ == old(v)@ + cmd_mid(),
{
    v.push(44);
    v.push(34);
    v.push(99);
    v.push(111);
    v.push(108);
    v.push(111);
    v.push(114);
    v.push(34);
    v.push(58);
    assert(v@ =~= old(v)@ + cmd_mid());
}

/// Encodes a set-pixel command into its packet payload.
pub fn encode_command(pixel: u32, color: u8) -> (r: Vec<u8>)
    ensures
        r@ == encode_bytes(pixel, color),
{
    let mut v: Vec<u8> = Vec::new();
    push_cmd_prefix(&mut v);
    push_dec(&mut v, pixel);
    push_cmd_mid(&mut v);
    push_dec(&mut v, color as u32);
    v.push(125);
    v.push(125);
    assert(v@ =~= encode_bytes(pixel, color));
    v
}

/// The end of the run of decimal digits of `s` that starts at `i`.
pub open spec fn digits_end(s: Seq<u8>, i: int) -> int
    decreases s.len() - i,
{
    if 0 <= i < s.len() && is_digit(s[i]) {
        digits_end(s, i + 1)
    } else {
        i
    }
}

proof fn lemma_digits_end_bounds(s: Seq<u8>, i: int)
    requires
        0 <= i <= s.len(),
    ensures
        i <= digits_end(s, i) <= s.len(),
        forall|k: int| i <= k < digits_end(s, i) ==> is_digit(#[trigger] s[k]),
        digits_end(s, i) < s.len() ==> !is_digit(s[digits_end(s, i)]),
    decreases s.len() - i,
{
    if i < s.len() && is_digit(s[i]) {
        lemma_digits_end_bounds(s, i + 1);
    }
}

/// A digit run followed by a non-digit boundary determines `digits_end`.
proof fn lemma_digits_end_concat(s: Seq<u8>, i: int, j: int)
    requires
        0 <= i <= j <= s.len(),
        forall|k: int| i <= k < j ==> is_digit(#[trigger] s[k]),
        j == s.len() || !is_digit(s[j]),
    ensures
        digits_end(s, i) == j,
    decreases j - i,
{
    if i < j {
        lemma_digits_end_concat(s, i + 1, j);
    }
}

/// A run of digits starting at `i` pushes `digits_end` to at least its end.
proof fn lemma_digits_end_at_least(s: Seq<u8>, i: int, j: int)
    requires
        0 <= i <= j <= s.len(),
        forall|k: int| i <= k < j ==> is_digit(#[trigger] s[k]),
    ensures
        digits_end(s, i) >= j,
    decreases j - i,
{
    if i < j {
        assert(is_digit(s[i]));
        lemma_digits_end_at_least(s, i + 1, j);
        assert(digits_end(s, i) == digits_end(s, i + 1));
    } else {
        lemma_digits_end_bounds(s, i);
    }
}

/// The decoding relation: `Some((pixel, color))` exactly on the byte
/// strings that [`encode_bytes`] produces, `None` on everything else.
pub open spec fn decode_spec(b: Seq<u8>) -> Option<(u32, u8)> {
    let e1 = digits_end(b, 22);
    let e2 = digits_end(b, e1 + 9);
    let d1 = b.subrange(22, e1);
    let d2 = b.subrange(e1 + 9, e2);
    if b.len() >= 22 && b.subrange(0, 22) == cmd_prefix() && e1 > 22 && canonical_dec(d1)
        && dec_value(d1) <= u32::MAX && e1 + 9 <= b.len() && b.subrange(e1, e1 + 9) == cmd_mid()
        && e2 > e1 + 9 && canonical_dec(d2) && dec_value(d2) <= u8::MAX && e2 + 2 == b.len()
        && b.subrange(e2, e2 + 2) == cmd_suffix() {
        Some((dec_value(d1) as u32, dec_value(d2) as u8))
    } else {
        None
    }
}

/// Round trip: decoding an encoded command yields exactly the encoded
/// pixel and color, for every valid pair.
pub proof fn lemma_codec_round_trip(pixel: u32, color: u8)
    ensures
        decode_spec(encode_bytes(pixel, color)) == Some((pixel, color)),
{
    lemma_dec_digits_props(pixel as nat);
    lemma_dec_digits_props(color as nat);
    let dp = dec_digits(pixel as nat);
    let dc = dec_digits(color as nat);
    let b = encode_bytes(pixel, color);
    let j1 = 22 + dp.len() as int;
    let j2 = j1 + 9 + dc.len() as int;
    assert(b.len() == j2 + 2);
    assert(b.subrange(0, 22) =~= cmd_prefix());
    assert(forall|k: int| 22 <= k < j1 ==> #[trigger] b[k] == dp[k - 22]);
    assert(b[j1] == cmd_mid()[0]);
    assert(!is_digit(b[j1]));
    lemma_digits_end_concat(b, 22, j1);
    let e1 = digits_end(b, 22);
    assert(e1 == j1);
    assert(b.subrange(22, e1) =~= dp);
    assert(b.subrange(e1, e1 + 9) =~= cmd_mid());
    assert(forall|k: int| j1 + 9 <= k < j2 ==> #[trigger] b[k] == dc[k - (j1 + 9)]);
    assert(b[j2] == cmd_suffix()[0]);
    assert(!is_digit(b[j2]));
    lemma_digits_end_concat(b, j1 + 9, j2);
    let e2 = digits_end(b, e1 + 9);
    assert(e2 == j2);
    assert(b.subrange(e1 + 9, e2) =~= dc);
    assert(b.subrange(e2, e2 + 2) =~= cmd_suffix());
    assert(decode_spec(b) == Some((pixel, color)));
}

/// Decoding is exact: a byte string that decodes successfully is the
/// encoding of the decoded pair, so distinct messages never collide.
pub proof fn lemma_decode_exact(b: Seq<u8>, pixel: u32, color: u8)
    requires
        decode_spec(b) == Some((pixel, color)),
    ensures
        b == encode_bytes(pixel, color),
{
    let e1 = digits_end(b, 22);
    let e2 = digits_end(b, e1 + 9);
    let d1 = b.subrange(22, e1);
    let d2 = b.subrange(e1 + 9, e2);
    lemma_canonical_dec_unique(d1);
    lemma_canonical_dec_unique(d2);
    assert(pixel == dec_value(d1) as u32 && dec_value(d1) <= u32::MAX);
    assert(pixel as nat == dec_value(d1) as nat);
    assert(dec_digits(pixel as nat) == d1);
    assert(color == dec_value(d2) as u8 && dec_value(d2) <= u8::MAX);
    assert(color as nat == dec_value(d2) as nat);
    assert(dec_digits(color as nat) == d2);
    lemma_digits_end_bounds(b, 22);
    assert(b =~= b.subrange(0, 22) + d1 + b.subrange(e1, e1 + 9) + d2 + b.subrange(e2, e2 + 2));
    assert(b == encode_bytes(pixel, color));
}

/// Extending a digit string never lowers its value.
proof fn lemma_dec_value_mono(s: Seq<u8>, m: int)
    requires
        forall|i: int| 0 <= i < s.len() ==> is_digit(#[trigger] s[i]),
        0 <= m <= s.len(),
    ensures
        dec_value(s) >= dec_value(s.subrange(0, m)),
    decreases s.len() - m,
{
    if m == s.len() {
        assert(s.subrange(0, m) =~= s);
    } else {
        lemma_dec_value_mono(s, m + 1);
        let t = s.subrange(0, m);
        let t1 = s.subrange(0, m + 1);
        assert(t1.drop_last() =~= t);
        assert(forall|i: int| 0 <= i < t.len() ==> is_digit(#[trigger] t[i]));
        lemma_dec_value_nonneg(t);
        assert(dec_value(t1) == dec_value(t) * 10 + (t1.last() - 0x30));
        assert(is_digit(s[m]));
        assert(dec_value(t1) >= dec_value(t));
    }
}

/// Compares `pat` against the bytes of `data` starting at `start`.
fn bytes_eq_at(data: &[u8], start: usize, pat: &Vec<u8>) -> (r: bool)
    requires
        start + pat@.len() <= data@.len(),
    ensures
        r <==> data@.subrange(start as int, start as int + pat@.len() as int) == pat@,
{
    let ghost sub = data@.subrange(start as int, start as int + pat@.len() as int);
    let dlen = data.len();
    let n = pat.len();
    let mut i: usize = 0;
    while i < n
        invariant
            0 <= i <= n,
            n == pat@.len(),
            dlen == data@.len(),
            start + n <= dlen,
            sub == data@.subrange(start as int, start as int + pat@.len() as int),
            forall|k: int| 0 <= k < i ==> data@[start + k] == pat@[k],
        decreases n - i,
    {
        if data[start + i] != pat[i] {
            proof {
                assert(sub[i as int] == data@[start + i]);
                assert(sub[i as int] != pat@[i as int]);
            }
            return false;
        }
        i = i + 1;
    }
    proof {
        assert(sub =~= pat@);
    }
    true
}

/// Scans a canonical decimal number of value at most `max` starting at
/// `start`. Returns the value and the position one past its last digit.
fn parse_number(data: &[u8], start: usize, max: u32) -> (r: Option<(u32, usize)>)
    requires
        start <= data@.len(),
        9 <= max,
    ensures
        ({
            let e = digits_end(data@, start as int);
            let d = data@.subrange(start as int, e);
            match r {
                Some(t) => t.1 == e && canonical_dec(d) && dec_value(d) == t.0 && t.0 <= max,
                None => !(e > start && canonical_dec(d) && dec_value(d) <= max),
            }
        }),
{
    let ghost b = data@;
    let ghost e = digits_end(b, start as int);
    proof {
        lemma_digits_end_bounds(b, start as int);
    }
    let n = data.len();
    if start >= n {
        return None;
    }
    let b0 = data[start];
    if !(0x30 <= b0 && b0 <= 0x39) {
        return None;
    }
    if b0 == 0x30 {
        if start + 1 < n && 0x30 <= data[start + 1] && data[start + 1] <= 0x39 {
            // a longer run with a leading zero is not canonical
            proof {
                assert(digits_end(b, start as int) == digits_end(b, start + 1));
                assert(digits_end(b, start + 1) == digits_end(b, start + 2));
                lemma_digits_end_bounds(b, start + 2);
                let d = b.subrange(start as int, e);
                assert(d[0] == 0x30 && d.len() >= 2);
            }
            return None;
        }
        proof {
            assert(digits_end(b, start as int) == digits_end(b, start + 1));
            assert(digits_end(b, start + 1) == start + 1);
            let d = b.subrange(start as int, e);
            assert(d =~= seq![0x30u8]);
            assert(d.drop_last() =~= Seq::<u8>::empty());
            assert(dec_value(Seq::<u8>::empty()) == 0);
            assert(canonical_dec(d) && dec_value(d) == 0);
        }
        return Some((0, start + 1));
    }
    let mut i: usize = start + 1;
    let mut v: u32 = (b0 - 0x30) as u32;
    proof {
        let d = b.subrange(start as int, start + 1);
        assert(d =~= seq![b0]);
        assert(d.drop_last() =~= Seq::<u8>::empty());
        assert(dec_value(Seq::<u8>::empty()) == 0);
        assert(dec_value(d) == v);
    }
    while i < n && 0x30 <= data[i] && data[i] <= 0x39
        invariant
            b == data@,
            n == b.len(),
            start < i <= n,
            i <= digits_end(b, start as int),
            e == digits_end(b, start as int),
            b[start as int] == b0,
            0x31 <= b0 <= 0x39,
            forall|k: int| start <= k < i ==> is_digit(#[trigger] b[k]),
            v == dec_value(b.subrange(start as int, i as int)),
            v <= max,
        decreases n - i,
    {
        let d = data[i] - 0x30;
        let w = v as u64 * 10 + d as u64;
        proof {
            assert(is_digit(b[i as int]));
            lemma_digits_end_at_least(b, start as int, i + 1);
            let t = b.subrange(start as int, i as int);
            let t1 = b.subrange(start as int, i + 1);
            assert(t1.drop_last() =~= t);
            assert(t1.last() == b[i as int]);
            assert(dec_value(t1) == v * 10 + d);
        }
        if w > max as u64 {
            // the full digit run would exceed the bound
            proof {
                lemma_digits_end_bounds(b, start as int);
                assert(i + 1 <= e);
                let full = b.subrange(start as int, e);
                assert(forall|k: int| 0 <= k < full.len() ==> is_digit(#[trigger] full[k]));
                lemma_dec_value_mono(full, i + 1 - start);
                assert(full.subrange(0, i + 1 - start) =~= b.subrange(start as int, i + 1));
                assert(dec_value(full) > max);
            }
            return None;
        }
        v = w as u32;
        i = i + 1;
    }
    proof {
        assert(i == n || !is_digit(b[i as int]));
        lemma_digits_end_concat(b, start as int, i as int);
        let d = b.subrange(start as int, e);
        assert(d[0] == b0);
        assert(canonical_dec(d));
    }
    Some((v, i))
}

pub open spec fn parse_error_text() -> Seq<char> {
    "invalid packet data"@
}

fn parse_error() -> (r: ContractError)
    ensures
        r matches ContractError::Std { msg } && msg@ == parse_error_text(),
{
    ContractError::Std { msg: "invalid packet data".to_owned() }
}

/// Decodes a packet payload into the application message it carries.
/// Exactly the outputs of [`encode_command`] are accepted; any other
/// byte string is a decode error.
pub fn decode_command(data: &[u8]) -> (r: Result<IbcExecuteMsg, ContractError>)
    ensures
        match decode_spec(data@) {
            Some(t) => r matches Ok(m) && m matches IbcExecuteMsg::SetPixel { pixel, color }
                && pixel == t.0 && color == t.1,
            None => r matches Err(e) && e matches ContractError::Std { msg } && msg@
                == parse_error_text(),
        },
{
    let ghost b = data@;
    let n = data.len();
    if n < 35 {
        proof {
            assert(decode_spec(b) is None);
        }
        return Err(parse_error());
    }
    let mut prefix: Vec<u8> = Vec::new();
    push_cmd_prefix(&mut prefix);
    if !bytes_eq_at(data, 0, &prefix) {
        return Err(parse_error());
    }
    let (pixel, e1) = match parse_number(data, 22, u32::MAX) {
        Some(t) => t,
        None => {
            return Err(parse_error());
        },
    };
    if e1 > n - 9 {
        return Err(parse_error());
    }
    let mut mid: Vec<u8> = Vec::new();
    push_cmd_mid(&mut mid);
    if !bytes_eq_at(data, e1, &mid) {
        return Err(parse_error());
    }
    let (color, e2) = match parse_number(data, e1 + 9, 255) {
        Some(t) => t,
        None => {
            return Err(parse_error());
        },
    };
    if e2 != n - 2 {
        return Err(parse_error());
    }
    let mut suffix: Vec<u8> = Vec::new();
    suffix.push(125);
    suffix.push(125);
    proof {
        assert(suffix@ =~= cmd_suffix());
    }
    if !bytes_eq_at(data, e2, &suffix) {
        return Err(parse_error());
    }
    proof {
        assert(decode_spec(b) == Some((pixel, (color as u8))));
    }
    Ok(IbcExecuteMsg::SetPixel { pixel, color: color as u8 })
}

/// The acknowledgment envelope: the receiver's verdict on a delivered
/// packet. On the wire it is `{"result":<base64 payload>}` for success
/// and `{"error":<message string>}` for failure.
#[derive(Debug, Clone)]
pub enum Ack {
    Result(Vec<u8>),
    Error(String),
}

/// The lowercase hex digit of a value below 16.
pub open spec fn hex_char(n: u8) -> u8 {
    if n < 10 {
        (0x30 + n) as u8
    } else {
        (0x61 + n - 10) as u8
    }
}

/// The JSON string escaping of one byte: quote and backslash get a
/// backslash escape, control bytes a short escape or `\u00XX`, and
/// every other byte passes through.
pub open spec fn escape_byte(b: u8) -> Seq<u8> {
    if b == 34 {
        seq![92, 34]
    } else if b == 92 {
        seq![92, 92]
    } else if b == 0x08 {
        seq![92, 98]
    } else if b == 0x09 {
        seq![92, 116]
    } else if b == 0x0a {
        seq![92, 110]
    } else if b == 0x0c {
        seq![92, 102]
    } else if b == 0x0d {
        seq![92, 114]
    } else if b < 0x20 {
        seq![92, 117, 0x30, 0x30, hex_char(b / 16), hex_char(b % 16)]
    } else {
        seq![b]
    }
}

/// The JSON string escaping of a byte string.
pub open spec fn json_escaped(s: Seq<u8>) -> Seq<u8>
    decreases s.len(),
{
    if s.len() == 0 {
        Seq::empty()
    } else {
        escape_byte(s[0]) + json_escaped(s.drop_first())
    }
}

proof fn lemma_json_escaped_push(t: Seq<u8>, x: u8)
    ensures
        json_escaped(t.push(x)) == json_escaped(t) + escape_byte(x),
    decreases t.len(),
{
    if t.len() == 0 {
        assert(t.push(x)[0] == x);
        assert(t.push(x).drop_first() =~= Seq::<u8>::empty());
        assert(t =~= Seq::<u8>::empty());
        assert(json_escaped(Seq::<u8>::empty()) =~= Seq::<u8>::empty());
        assert(json_escaped(t.push(x)) =~= escape_byte(x));
        assert(json_escaped(t.push(x)) =~= json_escaped(t) + escape_byte(x));
    } else {
        assert(t.push(x).drop_first() =~= t.drop_first().push(x));
        lemma_json_escaped_push(t.drop_first(), x);
        assert(t.push(x)[0] == t[0]);
        assert(json_escaped(t.push(x)) =~= json_escaped(t) + escape_byte(x));
    }
}

/// The bytes of the success acknowledgment `{"result":"MQ=="}`: the
/// sentinel payload `1`, base64-encoded by the envelope.
pub open spec fn ack_success_bytes() -> Seq<u8> {
    seq![123, 34, 114, 101, 115, 117, 108, 116, 34, 58, 34, 77, 81, 61, 61, 34, 125]
}

/// The bytes of the failure acknowledgment `{"error":"<escaped msg>"}`.
pub open spec fn ack_fail_bytes(msg: Seq<u8>) -> Seq<u8> {
    seq![123, 34, 101, 114, 114, 111, 114, 34, 58, 34] + json_escaped(msg) + seq![34u8, 125]
}

/// Builds the success acknowledgment carrying the sentinel payload.
pub fn make_ack_success() -> (r: Vec<u8>)
    ensures
        r@ == ack_success_bytes(),
{
    let mut v: Vec<u8> = Vec::new();
    v.push(123);
    v.push(34);
    v.push(114);
    v.push(101);
    v.push(115);
    v.push(117);
    v.push(108);
    v.push(116);
    v.push(34);
    v.push(58);
    v.push(34);
    v.push(77);
    v.push(81);
    v.push(61);
    v.push(61);
    v.push(34);
    v.push(125);
    assert(v@ =~= ack_success_bytes());
    v
}

fn push_escape_byte(v: &mut Vec<u8>, x: u8)
    ensures
        final(v)@ == old(v)@ + escape_byte(x),
{
    if x == 34 {
        v.push(92);
        v.push(34);
    } else if x == 92 {
        v.push(92);
        v.push(92);
    } else if x == 0x08 {
        v.push(92);
        v.push(98);
    } else if x == 0x09 {
        v.push(92);
        v.push(116);
    } else if x == 0x0a {
        v.push(92);
        v.push(110);
    } else if x == 0x0c {
        v.push(92);
        v.push(102);
    } else if x == 0x0d {
        v.push(92);
        v.push(114);
    } else if x < 0x20 {
        v.push(92);
        v.push(117);
        v.push(0x30);
        v.push(0x30);
        let hi = x / 16;
        let lo = x % 16;
        v.push(if hi < 10 { 0x30 + hi } else { 0x61 + hi - 10 });
        v.push(if lo < 10 { 0x30 + lo } else { 0x61 + lo - 10 });
    } else {
        v.push(x);
    }
    assert(v@ =~= old(v)@ + escape_byte(x));
}

/// Builds the failure acknowledgment carrying the error message.
pub fn make_ack_fail(err: String) -> (r: Vec<u8>)
    ensures
        r@ == ack_fail_bytes(vstd::utf8::encode_utf8(err@)),
{
    let bytes = err.as_str().as_bytes_vec();
    let ghost m = bytes@;
    let mut v: Vec<u8> = Vec::new();
    v.push(123);
    v.push(34);
    v.push(101);
    v.push(114);
    v.push(114);
    v.push(111);
    v.push(114);
    v.push(34);
    v.push(58);
    v.push(34);
    let ghost head = v@;
    proof {
        assert(json_escaped(m.subrange(0, 0)) =~= Seq::<u8>::empty());
        assert(v@ =~= head + json_escaped(m.subrange(0, 0)));
    }
    let mut i: usize = 0;
    while i < bytes.len()
        invariant
            0 <= i <= bytes@.len(),
            m == bytes@,
            v@ == head + json_escaped(m.subrange(0, i as int)),
        decreases bytes@.len() - i,
    {
        push_escape_byte(&mut v, bytes[i]);
        proof {
            assert(m.subrange(0, i + 1) =~= m.subrange(0, i as int).push(m[i as int]));
            lemma_json_escaped_push(m.subrange(0, i as int), m[i as int]);
        }
        i = i + 1;
    }
    proof {
        assert(m.subrange(0, m.len() as int) =~= m);
    }
    v.push(34);
    v.push(125);
    assert(v@ =~= ack_fail_bytes(vstd::utf8::encode_utf8(err@)));
    v
}

/// Relies on String::from_utf8: bytes below 0x80 decode to exactly
/// those characters, one character per byte.
#[verifier::external_body]
fn ascii_string(bytes: Vec<u8>) -> (r: String)
    requires
        forall|i: int| 0 <= i < bytes@.len() ==> bytes@[i] < 0x80,
    ensures
        r@ == bytes@.map_values(|b: u8| b as char),
{
    String::from_utf8(bytes).unwrap_or_default()
}

/// The decimal digits of `n`, as characters.
pub open spec fn dec_chars(n: nat) -> Seq<char> {
    dec_digits(n).map_values(|b: u8| b as char)
}

/// Renders `n` in decimal, for response attributes.
pub fn u32_string(n: u32) -> (r: String)
    ensures
        r@ == dec_chars(n as nat),
{
    let mut v: Vec<u8> = Vec::new();
    push_dec(&mut v, n);
    proof {
        lemma_dec_digits_props(n as nat);
        assert(forall|i: int| 0 <= i < v@.len() ==> is_digit(#[trigger] v@[i]));
    }
    ascii_string(v)
}

} // verus!
