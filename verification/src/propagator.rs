//! Propagation of a trace identifier through a configured request header.
//!
//! The identifier travels as hexadecimal text. Parsing follows the integer
//! parser the tracing substrate uses: an optional plus sign, then hex
//! digits of either case; empty input, a stray character or a value beyond
//! the identifier's width is rejected. Injection writes the canonical
//! 32-digit lower-case form.

use vstd::prelude::*;

use crate::attributes::spec_header_lookup;

verus! {

/// The value of a hexadecimal digit character, if it is one.
pub open spec fn hex_val(c: char) -> Option<int> {
    if '0' <= c && c <= '9' {
        Some(c as int - '0' as int)
    } else if 'a' <= c && c <= 'f' {
        Some(c as int - 'a' as int + 10)
    } else if 'A' <= c && c <= 'F' {
        Some(c as int - 'A' as int + 10)
    } else {
        None
    }
}

/// Whether every character is a hexadecimal digit.
pub open spec fn hex_digits_valid(s: Seq<char>) -> bool {
    forall|i: int| 0 <= i < s.len() ==> (#[trigger] hex_val(s[i])) is Some
}

/// The number the digits spell, most significant first.
pub open spec fn hex_num(s: Seq<char>) -> int
    decreases s.len(),
{
    if s.len() == 0 {
        0
    } else {
        hex_num(s.drop_last()) * 16 + match hex_val(s.last()) {
            Some(v) => v,
            None => 0,
        }
    }
}

/// Sixteen to the `k`.
pub open spec fn pow16(k: nat) -> int
    decreases k,
{
    if k == 0 {
        1
    } else {
        16 * pow16((k - 1) as nat)
    }
}

/// The trace identifier hexadecimal text denotes: an optional plus sign,
/// then at least one digit, and a value within the identifier's width.
pub open spec fn spec_trace_id_from_hex(s: Seq<char>) -> Option<u128> {
    let body = if s.len() > 0 && s[0] == '+' {
        s.drop_first()
    } else {
        s
    };
    if body.len() >= 1 && hex_digits_valid(body) && hex_num(body) < pow16(32) {
        Some(hex_num(body) as u128)
    } else {
        None
    }
}

/// The digits of a number, zero-padded to a fixed width, lower case.
pub open spec fn spec_hex_pad(digits: nat, v: int) -> Seq<char>
    decreases digits,
{
    if digits == 0 {
        Seq::empty()
    } else {
        spec_hex_pad((digits - 1) as nat, v / 16).push(crate::json::hex_digit(v % 16))
    }
}

/// A digit's value lies between zero and fifteen.
proof fn lemma_hex_val_range(c: char)
    ensures
        match hex_val(c) {
            Some(v) => 0 <= v < 16,
            None => true,
        },
{
}

/// Valid digits spell a number below sixteen to their count.
proof fn lemma_hex_num_bound(s: Seq<char>)
    requires
        hex_digits_valid(s),
    ensures
        0 <= hex_num(s) < pow16(s.len()),
    decreases s.len(),
{
    if s.len() == 0 {
    } else {
        let t = s.drop_last();
        assert(hex_digits_valid(t)) by {
            assert(forall|i: int| 0 <= i < t.len() ==> t[i] == s[i]);
        }
        lemma_hex_num_bound(t);
        let d = match hex_val(s.last()) {
            Some(v) => v,
            None => 0,
        };
        assert(hex_val(s.last()) is Some);
        lemma_hex_val_range(s.last());
        assert(0 <= d < 16);
        assert(hex_num(t) * 16 + d < pow16(s.len())) by {
            assert(hex_num(t) <= pow16(t.len()) - 1);
            assert(hex_num(t) * 16 <= (pow16(t.len()) - 1) * 16) by (nonlinear_arith)
                requires
                    hex_num(t) <= pow16(t.len()) - 1,
            ;
            assert(pow16(s.len()) == 16 * pow16(t.len()));
        }
    }
}

/// A leading zero never changes the number.
proof fn lemma_drop_leading_zero(s: Seq<char>)
    requires
        s.len() >= 1,
        hex_val(s[0]) == Some(0int),
    ensures
        hex_num(s) == hex_num(s.drop_first()),
    decreases s.len(),
{
    if s.len() == 1 {
        assert(s.drop_last() =~= Seq::<char>::empty());
        assert(s.drop_first() =~= Seq::<char>::empty());
        assert(s.last() == s[0]);
    } else {
        let t = s.drop_last();
        lemma_drop_leading_zero(t);
        assert(s.drop_first().drop_last() =~= t.drop_first());
        assert(s.drop_first().last() == s.last());
        assert(s.drop_first().len() >= 1);
    }
}

/// A number keeps growing as digits follow a nonzero leading digit: with
/// more than 32 digits it exceeds the identifier's width.
proof fn lemma_hex_num_overflow(s: Seq<char>)
    requires
        hex_digits_valid(s),
        s.len() >= 33,
        hex_val(s[0]) != Some(0int),
    ensures
        hex_num(s) >= pow16(32),
    decreases s.len(),
{
    let t = s.drop_last();
    assert(hex_digits_valid(t)) by {
        assert(forall|i: int| 0 <= i < t.len() ==> t[i] == s[i]);
    }
    if s.len() == 33 {
        lemma_hex_leading(t);
        assert(hex_num(t) >= pow16(31));
        assert(hex_num(s) >= hex_num(t) * 16) by {
            assert(hex_val(s.last()) is Some);
            lemma_hex_val_range(s.last());
        }
        assert(hex_num(t) * 16 >= pow16(31) * 16) by (nonlinear_arith)
            requires
                hex_num(t) >= pow16(31),
        ;
        assert(pow16(32) == 16 * pow16(31));
    } else {
        lemma_hex_num_overflow(t);
        assert(hex_num(s) >= hex_num(t) * 16) by {
            assert(hex_val(s.last()) is Some);
            lemma_hex_val_range(s.last());
        }
        lemma_pow16_pos(32);
        assert(hex_num(t) * 16 >= pow16(32)) by (nonlinear_arith)
            requires
                hex_num(t) >= pow16(32),
                pow16(32) >= 1,
        ;
    }
}

/// A nonzero leading digit puts the number at or above sixteen to one less
/// than the digit count.
proof fn lemma_hex_leading(s: Seq<char>)
    requires
        hex_digits_valid(s),
        s.len() >= 1,
        hex_val(s[0]) != Some(0int),
    ensures
        hex_num(s) >= pow16((s.len() - 1) as nat),
    decreases s.len(),
{
    if s.len() == 1 {
        assert(s.last() == s[0]);
        assert(hex_val(s[0]) is Some);
        lemma_hex_val_range(s[0]);
        assert(s.drop_last() =~= Seq::<char>::empty());
        let d = match hex_val(s[0]) {
            Some(v) => v,
            None => 0int,
        };
        assert(hex_val(s[0]) == Some(d));
        assert(d != 0);
        assert(hex_num(Seq::<char>::empty()) == 0);
        assert(hex_num(s) == d);
    } else {
        let t = s.drop_last();
        assert(hex_digits_valid(t)) by {
            assert(forall|i: int| 0 <= i < t.len() ==> t[i] == s[i]);
        }
        lemma_hex_leading(t);
        assert(hex_val(s.last()) is Some);
        lemma_hex_val_range(s.last());
        assert(hex_num(s) >= hex_num(t) * 16);
        assert(hex_num(t) * 16 >= pow16((t.len() - 1) as nat) * 16) by (nonlinear_arith)
            requires
                hex_num(t) >= pow16((t.len() - 1) as nat),
        ;
        assert(pow16((s.len() - 1) as nat) == 16 * pow16((s.len() - 2) as nat));
    }
}

/// The concrete powers of sixteen the identifier's width needs.
proof fn lemma_pow16_values()
    ensures
        pow16(31) == 0x1000_0000_0000_0000_0000_0000_0000_0000int,
        pow16(32) == 0x1_0000_0000_0000_0000_0000_0000_0000_0000int,
{
    assert(pow16(0) == 0x1int);
    assert(pow16(1) == 0x10int);
    assert(pow16(2) == 0x100int);
    assert(pow16(3) == 0x1000int);
    assert(pow16(4) == 0x10000int);
    assert(pow16(5) == 0x100000int);
    assert(pow16(6) == 0x1000000int);
    assert(pow16(7) == 0x10000000int);
    assert(pow16(8) == 0x100000000int);
    assert(pow16(9) == 0x1000000000int);
    assert(pow16(10) == 0x10000000000int);
    assert(pow16(11) == 0x100000000000int);
    assert(pow16(12) == 0x1000000000000int);
    assert(pow16(13) == 0x10000000000000int);
    assert(pow16(14) == 0x100000000000000int);
    assert(pow16(15) == 0x1000000000000000int);
    assert(pow16(16) == 0x10000000000000000int);
    assert(pow16(17) == 0x100000000000000000int);
    assert(pow16(18) == 0x1000000000000000000int);
    assert(pow16(19) == 0x10000000000000000000int);
    assert(pow16(20) == 0x100000000000000000000int);
    assert(pow16(21) == 0x1000000000000000000000int);
    assert(pow16(22) == 0x10000000000000000000000int);
    assert(pow16(23) == 0x100000000000000000000000int);
    assert(pow16(24) == 0x1000000000000000000000000int);
    assert(pow16(25) == 0x10000000000000000000000000int);
    assert(pow16(26) == 0x100000000000000000000000000int);
    assert(pow16(27) == 0x1000000000000000000000000000int);
    assert(pow16(28) == 0x10000000000000000000000000000int);
    assert(pow16(29) == 0x100000000000000000000000000000int);
    assert(pow16(30) == 0x1000000000000000000000000000000int);
    assert(pow16(31) == 0x10000000000000000000000000000000int);
    assert(pow16(32) == 0x100000000000000000000000000000000int);
}

/// The value of one digit character, decided executably.
fn hex_digit_val(c: char) -> (r: Option<u8>)
    ensures
        match r {
            Some(v) => hex_val(c) == Some(v as int) && v < 16,
            None => hex_val(c) is None,
        },
{
    let u = c as u32;
    if u >= '0' as u32 && u <= '9' as u32 {
        Some((u - '0' as u32) as u8)
    } else if u >= 'a' as u32 && u <= 'f' as u32 {
        Some((u - 'a' as u32 + 10) as u8)
    } else if u >= 'A' as u32 && u <= 'F' as u32 {
        Some((u - 'A' as u32 + 10) as u8)
    } else {
        None
    }
}

/// Parses hexadecimal text into a trace identifier, exactly
/// `spec_trace_id_from_hex`.
#[verifier::loop_isolation(false)]
#[verifier::rlimit(100)]
pub fn trace_id_from_hex(s: &str) -> (r: Option<u128>)
    ensures
        r == spec_trace_id_from_hex(s@),
{
    let len = s.unicode_len();
    let mut start: usize = 0;
    if len > 0 && s.get_char(0) == '+' {
        start = 1;
    }
    let ghost body = if s@.len() > 0 && s@[0] == '+' {
        s@.drop_first()
    } else {
        s@
    };
    proof {
        assert(body =~= s@.subrange(start as int, len as int));
    }
    if start == len {
        return None;
    }
    // Skip leading zeros so that the width check below is exact.
    let mut first: usize = start;
    while first < len && s.get_char(first) == '0'
        invariant
            start <= first <= len,
            forall|i: int| start <= i < first ==> s@[i] == '0',
        decreases len - first,
    {
        first += 1;
    }
    let ghost trimmed = s@.subrange(first as int, len as int);
    proof {
        lemma_trim_zeros(body, (first - start) as int);
        assert(body.subrange((first - start) as int, body.len() as int) =~= trimmed);
    }
    if first == len {
        // All zeros: the value is zero, valid.
        proof {
            assert(trimmed =~= Seq::<char>::empty());
            assert forall|i: int| 0 <= i < body.len() implies (#[trigger] hex_val(
                body[i],
            )) is Some by {
                assert(body[i] == s@[i + start as int]);
                assert(body[i] == '0');
                assert(hex_val('0') == Some(0int));
            }
            assert(hex_num(body) == hex_num(trimmed));
            assert(hex_num(trimmed) == 0);
            lemma_pow16_pos(32);
            assert(spec_trace_id_from_hex(s@) == Some(0u128));
        }
        return Some(0);
    }
    // More than 32 significant digits cannot fit the identifier.
    if len - first > 32 {
        proof {
            if hex_digits_valid(body) {
                assert(hex_digits_valid(trimmed)) by {
                    assert(forall|i: int| 0 <= i < trimmed.len()
                        ==> trimmed[i] == body[i + (first - start)]);
                }
                assert(hex_val(trimmed[0]) != Some(0int)) by {
                    assert(trimmed[0] == s@[first as int]);
                    assert(trimmed[0] != '0');
                    if hex_val(trimmed[0]) == Some(0int) {
                        assert(trimmed[0] == '0');
                    }
                }
                lemma_hex_num_overflow(trimmed);
                assert(hex_num(body) >= pow16(32));
            }
            assert(spec_trace_id_from_hex(s@) is None);
        }
        return None;
    }
    let mut acc: u128 = 0;
    let mut i: usize = first;
    proof {
        assert(trimmed.subrange(0, 0) =~= Seq::<char>::empty());
        lemma_pow16_values();
    }
    while i < len
        invariant
            first <= i <= len,
            len - first <= 32,
            hex_digits_valid(trimmed.subrange(0, i - first)),
            acc == hex_num(trimmed.subrange(0, i - first)),
        decreases len - i,
    {
        let ghost pre = trimmed.subrange(0, i - first);
        let ghost ext = trimmed.subrange(0, i - first + 1);
        proof {
            assert(ext.drop_last() =~= pre);
            assert(ext.last() == s@[i as int]);
        }
        match hex_digit_val(s.get_char(i)) {
            Some(d) => {
                proof {
                    assert(hex_digits_valid(ext)) by {
                        assert(forall|k: int| 0 <= k < pre.len() ==> ext[k] == pre[k]);
                    }
                    lemma_hex_num_bound(pre);
                    assert(pre.len() <= 31);
                    lemma_pow16_mono(pre.len(), 31nat);
                    assert(acc <= 0xFFF_FFFF_FFFF_FFFF_FFFF_FFFF_FFFF_FFFFu128);
                }
                acc = acc * 16 + (d as u128);
            },
            None => {
                proof {
                    assert(!hex_digits_valid(body)) by {
                        assert(body[(i - start) as int] == s@[i as int]);
                    }
                    assert(spec_trace_id_from_hex(s@) is None);
                }
                return None;
            },
        }
        i += 1;
    }
    proof {
        assert(trimmed.subrange(0, trimmed.len() as int) =~= trimmed);
        lemma_hex_num_bound(trimmed);
        lemma_pow16_mono(trimmed.len(), 32nat);
        assert(hex_digits_valid(body)) by {
            assert(forall|k: int| 0 <= k < body.len() && k < first - start ==> body[k] == '0');
            assert(forall|k: int| first - start <= k < body.len()
                ==> body[k] == trimmed[k - (first - start)]);
        }
        lemma_trim_zeros(body, (first - start) as int);
        assert(hex_num(body) == hex_num(trimmed));
        assert(spec_trace_id_from_hex(s@) == Some(acc));
    }
    Some(acc)
}

/// Sixteen's powers grow with the exponent.
proof fn lemma_pow16_mono(a: nat, b: nat)
    requires
        a <= b,
    ensures
        pow16(a) <= pow16(b),
        pow16(a) >= 1,
    decreases b,
{
    if a == b {
        lemma_pow16_pos(a);
    } else {
        lemma_pow16_mono(a, (b - 1) as nat);
        lemma_pow16_pos((b - 1) as nat);
    }
}

/// Sixteen's powers are positive.
proof fn lemma_pow16_pos(k: nat)
    ensures
        pow16(k) >= 1,
    decreases k,
{
    if k > 0 {
        lemma_pow16_pos((k - 1) as nat);
    }
}

/// Dropping leading zero digits keeps the number.
proof fn lemma_trim_zeros(s: Seq<char>, k: int)
    requires
        0 <= k <= s.len(),
        forall|i: int| 0 <= i < k ==> s[i] == '0',
    ensures
        hex_num(s) == hex_num(s.subrange(k, s.len() as int)),
    decreases k,
{
    if k > 0 {
        assert(hex_val(s[0]) == Some(0int));
        lemma_drop_leading_zero_any(s);
        let t = s.drop_first();
        assert(forall|i: int| 0 <= i < k - 1 ==> t[i] == s[i + 1]);
        lemma_trim_zeros(t, k - 1);
        assert(t.subrange(k - 1, t.len() as int) =~= s.subrange(k, s.len() as int));
    } else {
        assert(s.subrange(0, s.len() as int) =~= s);
    }
}

/// A leading zero never changes the number, for any length.
proof fn lemma_drop_leading_zero_any(s: Seq<char>)
    requires
        s.len() >= 1,
        s[0] == '0',
    ensures
        hex_num(s) == hex_num(s.drop_first()),
{
    assert(hex_val('0') == Some(0int));
    lemma_drop_leading_zero(s);
}

/// Padded digits are valid hexadecimal and spell the number back, reduced
/// to the width.
proof fn lemma_hex_pad_spells(digits: nat, v: int)
    requires
        v >= 0,
    ensures
        spec_hex_pad(digits, v).len() == digits,
        hex_digits_valid(spec_hex_pad(digits, v)),
        hex_num(spec_hex_pad(digits, v)) == v % pow16(digits),
    decreases digits,
{
    if digits == 0 {
        assert(v % 1 == 0) by {
            vstd::arithmetic::div_mod::lemma_fundamental_div_mod_converse_mod(v, 1, v, 0);
        }
    } else {
        let m = pow16((digits - 1) as nat);
        lemma_pow16_pos((digits - 1) as nat);
        lemma_hex_pad_spells((digits - 1) as nat, v / 16);
        let pre = spec_hex_pad((digits - 1) as nat, v / 16);
        let s = spec_hex_pad(digits, v);
        let d = v % 16;
        assert(0 <= d < 16);
        assert(hex_val(crate::json::hex_digit(d)) == Some(d));
        assert(s == pre.push(crate::json::hex_digit(d)));
        assert(hex_digits_valid(s)) by {
            assert(forall|i: int| 0 <= i < pre.len() ==> s[i] == pre[i]);
            assert(s.last() == crate::json::hex_digit(d));
        }
        assert(s.drop_last() =~= pre);
        let r = (v / 16) % m;
        let q = (v / 16) / m;
        assert(hex_num(s) == r * 16 + d);
        // v decomposes as 16·m·q + (16·r + d), and the remainder part lies
        // below 16·m, so it is exactly v's reduction to the width.
        vstd::arithmetic::div_mod::lemma_fundamental_div_mod(v, 16);
        vstd::arithmetic::div_mod::lemma_fundamental_div_mod(v / 16, m);
        assert(v == 16 * (m * q + r) + d);
        assert(16 * (m * q + r) == (16 * m) * q + 16 * r) by (nonlinear_arith);
        assert(r * 16 + d < 16 * m) by (nonlinear_arith)
            requires
                0 <= r < m,
                0 <= d < 16,
        ;
        assert(r * 16 + d >= 0) by (nonlinear_arith)
            requires
                0 <= r,
                0 <= d,
        ;
        assert(v == q * (16 * m) + (r * 16 + d)) by (nonlinear_arith)
            requires
                v == (16 * m) * q + 16 * r + d,
        ;
        vstd::arithmetic::div_mod::lemma_fundamental_div_mod_converse_mod(
            v,
            16 * m,
            q,
            r * 16 + d,
        );
        assert(pow16(digits) == 16 * m);
    }
}

/// The codec round trip: the canonical written form of a trace identifier
/// reads back as exactly that identifier, so a context injected into a
/// carrier is reconstructed unchanged.
pub proof fn law_trace_id_round_trip(id: u128)
    ensures
        spec_trace_id_from_hex(spec_hex_pad(32, id as int)) == Some(id),
{
    lemma_hex_pad_spells(32, id as int);
    lemma_pow16_values();
    let s = spec_hex_pad(32, id as int);
    assert(hex_val(s[0]) is Some);
    assert(hex_val('+') is None);
    assert(s[0] != '+');
    assert(id as int % pow16(32) == id as int) by {
        vstd::arithmetic::div_mod::lemma_fundamental_div_mod_converse_mod(
            id as int,
            pow16(32),
            0,
            id as int,
        );
    }
}

/// Renders a number as fixed-width hexadecimal, exactly `spec_hex_pad`.
pub fn hex_pad(digits: u32, v: u128) -> (r: String)
    ensures
        r@ == spec_hex_pad(digits as nat, v as int),
    decreases digits,
{
    if digits == 0 {
        String::new()
    } else {
        let mut s = hex_pad(digits - 1, v / 16);
        let d: char = match v % 16 {
            0 => '0', 1 => '1', 2 => '2', 3 => '3', 4 => '4', 5 => '5', 6 => '6', 7 => '7',
            8 => '8', 9 => '9', 10 => 'a', 11 => 'b', 12 => 'c', 13 => 'd', 14 => 'e', _ => 'f',
        };
        s.push(d);
        s
    }
}

/// The canonical written form of a trace identifier: 32 lower-case digits.
pub fn format_trace_id(id: u128) -> (r: String)
    ensures
        r@ == spec_hex_pad(32, id as int),
{
    hex_pad(32, id)
}

// ---------------------------------------------------------------------------
// The propagator.
// ---------------------------------------------------------------------------

/// A remote span context reconstructed from carrier headers, or injected
/// into them.
pub struct SpanContext {
    pub trace_id: u128,
    pub span_id: u64,
    pub sampled: bool,
    pub remote: bool,
}

impl SpanContext {
    /// The empty context: no identifiers, nothing sampled.
    pub fn empty_context() -> (r: SpanContext)
        ensures
            r.trace_id == 0,
            r.span_id == 0,
            !r.sampled,
            !r.remote,
    {
        SpanContext { trace_id: 0, span_id: 0, sampled: false, remote: false }
    }

    /// A context is valid when both identifiers are set.
    pub open spec fn spec_is_valid(&self) -> bool {
        self.trace_id != 0 && self.span_id != 0
    }

    /// Decides validity.
    pub fn is_valid(&self) -> (r: bool)
        ensures
            r == self.spec_is_valid(),
    {
        self.trace_id != 0 && self.span_id != 0
    }
}

/// Carries a trace identifier in a configured header, for callers that
/// address the gateway with their own correlation ids.
pub struct CustomTraceIdPropagator {
    pub header_name: String,
    pub fields: Vec<String>,
}

impl CustomTraceIdPropagator {
    /// A propagator reading and writing the given header; its advertised
    /// field list holds exactly that header.
    pub fn new(header_name: String) -> (r: CustomTraceIdPropagator)
        ensures
            r.header_name@ == header_name@,
            r.fields@.len() == 1,
            r.fields@[0]@ == header_name@,
    {
        let mut fields = Vec::new();
        fields.push(header_name.clone());
        CustomTraceIdPropagator { header_name, fields }
    }

    /// The header names this propagator reads.
    pub fn fields(&self) -> (r: &Vec<String>)
        ensures
            r == &self.fields,
    {
        &self.fields
    }

    /// Reconstructs a remote span context from the carrier: the configured
    /// header's value, read as a hexadecimal trace identifier, marked
    /// sampled; a missing header or unreadable value yields nothing.
    pub fn extract_span_context(&self, carrier: &Vec<(String, String)>) -> (r: Option<SpanContext>)
        ensures
            match spec_header_lookup(carrier@, self.header_name@) {
                Some(v) => match spec_trace_id_from_hex(v) {
                    Some(t) => r == Some(
                        SpanContext { trace_id: t, span_id: 0, sampled: true, remote: true },
                    ),
                    None => r is None,
                },
                None => r is None,
            },
    {
        let value = match crate::attributes::header_lookup(carrier, self.header_name.as_str()) {
            Some(v) => v,
            None => {
                return None;
            },
        };
        match trace_id_from_hex(value.as_str()) {
            Some(t) => Some(SpanContext { trace_id: t, span_id: 0, sampled: true, remote: true }),
            None => None,
        }
    }

    /// Writes the active context's trace identifier into the carrier, in
    /// canonical form, but only when the context is valid.
    pub fn inject_context(&self, cx: &SpanContext, carrier: &mut Vec<(String, String)>)
        ensures
            cx.spec_is_valid() ==> {
                &&& final(carrier)@.len() == old(carrier)@.len() + 1
                &&& final(carrier)@.drop_last() == old(carrier)@
                &&& final(carrier)@.last().0@ == self.header_name@
                &&& final(carrier)@.last().1@ == spec_hex_pad(32, cx.trace_id as int)
            },
            !cx.spec_is_valid() ==> final(carrier)@ == old(carrier)@,
    {
        if cx.is_valid() {
            let header_value = format_trace_id(cx.trace_id);
            carrier.push((self.header_name.clone(), header_value));
            proof {
                assert(final(carrier)@.drop_last() =~= old(carrier)@);
            }
        }
    }

    /// Reconstructs a context from the carrier, or the empty context when
    /// none can be read.
    pub fn extract_with_context(&self, carrier: &Vec<(String, String)>) -> (r: SpanContext)
        ensures
            match spec_header_lookup(carrier@, self.header_name@) {
                Some(v) => match spec_trace_id_from_hex(v) {
                    Some(t) => r == SpanContext {
                        trace_id: t,
                        span_id: 0,
                        sampled: true,
                        remote: true,
                    },
                    None => r == SpanContext::empty_spec(),
                },
                None => r == SpanContext::empty_spec(),
            },
    {
        match self.extract_span_context(carrier) {
            Some(cx) => cx,
            None => SpanContext::empty_context(),
        }
    }
}

impl SpanContext {
    /// The empty context, as specifications name it.
    pub open spec fn empty_spec() -> SpanContext {
        SpanContext { trace_id: 0, span_id: 0, sampled: false, remote: false }
    }
}

} // verus!
