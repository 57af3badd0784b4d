//! The wire payload of a snapshot: a JSON object with the fields `total_cpu`,
//! `used_cpu`, `used_memory`, `total_memory` and `timestamp`, in that order and
//! without white space. The two CPU figures are written as decimal fractions
//! (`16000.0`, `243.5`), the other three as integers.
use vstd::prelude::*;
use crate::decimal::{
    ascii_bytes, decimal_digits, digit_run_len, digits_value, is_digit_byte, number_at,
    lemma_decimal_digits, lemma_number_at_spelling, lemma_run_len_of_digits, parse_number,
    push_decimal,
};
use crate::snapshot::SystemSnapshot;
use vstd::seq_lib::lemma_concat_associative;

verus! {

pub open spec fn key_total_cpu() -> Seq<u8> {
    ascii_bytes("{\"total_cpu\":"@)
}

pub open spec fn key_used_cpu() -> Seq<u8> {
    ascii_bytes(".0,\"used_cpu\":"@)
}

pub open spec fn decimal_point() -> Seq<u8> {
    ascii_bytes("."@)
}

pub open spec fn key_used_memory() -> Seq<u8> {
    ascii_bytes(",\"used_memory\":"@)
}

pub open spec fn key_total_memory() -> Seq<u8> {
    ascii_bytes(",\"total_memory\":"@)
}

pub open spec fn key_timestamp() -> Seq<u8> {
    ascii_bytes(",\"timestamp\":"@)
}

pub open spec fn closing_brace() -> Seq<u8> {
    ascii_bytes("}"@)
}

/// The digits after the decimal point of a number of hundredths `c < 100`:
/// one digit where the second would be a zero, else two.
pub open spec fn hundredths_digits(c: nat) -> Seq<u8> {
    if c % 10 == 0 {
        seq![(c / 10 + 48) as u8]
    } else {
        seq![(c / 10 + 48) as u8, (c % 10 + 48) as u8]
    }
}

/// The payload of a snapshot.
pub open spec fn payload(s: SystemSnapshot) -> Seq<u8> {
    key_total_cpu() + (decimal_digits(s.total_cpu_capacity as nat) + (key_used_cpu() + (
    decimal_digits((s.used_cpu / 100) as nat) + (decimal_point() + (hundredths_digits(
        (s.used_cpu % 100) as nat,
    ) + (key_used_memory() + (decimal_digits(s.used_memory as nat) + (key_total_memory() + (
    decimal_digits(s.total_memory as nat) + (key_timestamp() + (decimal_digits(
        s.timestamp as nat,
    ) + closing_brace())))))))))))
}

/// `lit` stands in `b` at `pos`.
pub open spec fn has_at(b: Seq<u8>, pos: int, lit: Seq<u8>) -> bool {
    0 <= pos && pos + lit.len() <= b.len() && b.subrange(pos, pos + lit.len()) == lit
}

/// `lit` at `pos`, then a number: its value and the position after it.
pub open spec fn field_at(b: Seq<u8>, pos: int, lit: Seq<u8>) -> Option<(u64, int)> {
    if has_at(b, pos, lit) {
        number_at(b, pos + lit.len())
    } else {
        None
    }
}

/// The hundredths that the digits from `start` to `end` after a decimal point
/// stand for, given their value `v`: one digit is tenths, two are hundredths.
pub open spec fn hundredths_of(v: u64, start: int, end: int) -> Option<u64> {
    if end - start == 1 && v < 10 {
        Some((v * 10) as u64)
    } else if end - start == 2 {
        Some(v)
    } else {
        None
    }
}

/// What a payload's fields read: each key in turn and the number after it,
/// with nothing after the closing brace. It reads more than payloads (leading
/// zeros, for one); `decode` keeps only what `encode` writes.
#[verifier::opaque]
pub open spec fn read_fields(b: Seq<u8>) -> Option<SystemSnapshot> {
    match field_at(b, 0, key_total_cpu()) {
        None => None,
        Some((total, at1)) => match field_at(b, at1, key_used_cpu()) {
            None => None,
            Some((whole, at2)) => match field_at(b, at2, decimal_point()) {
                None => None,
                Some((frac, at3)) => match hundredths_of(frac, at2 + 1, at3) {
                    None => None,
                    Some(c) => if whole as int * 100 + c as int > u64::MAX {
                        None
                    } else {
                        match field_at(b, at3, key_used_memory()) {
                            None => None,
                            Some((used_mem, at4)) => match field_at(b, at4, key_total_memory()) {
                                None => None,
                                Some((total_mem, at5)) => match field_at(b, at5, key_timestamp()) {
                                    None => None,
                                    Some((ts, at6)) => if has_at(b, at6, closing_brace()) && at6 + 1
                                        == b.len() {
                                        Some(
                                            SystemSnapshot {
                                                total_cpu_capacity: total,
                                                used_cpu: (whole * 100 + c) as u64,
                                                used_memory: used_mem,
                                                total_memory: total_mem,
                                                timestamp: ts,
                                            },
                                        )
                                    } else {
                                        None
                                    },
                                },
                            },
                        }
                    },
                },
            },
        },
    }
}

proof fn lemma_keys()
    ensures
        key_total_cpu().len() == 13,
        key_used_cpu().len() == 14,
        key_used_cpu()[0] == 46,
        decimal_point() == seq![46u8],
        key_used_memory().len() == 15,
        key_used_memory()[0] == 44,
        key_total_memory().len() == 16,
        key_total_memory()[0] == 44,
        key_timestamp().len() == 13,
        key_timestamp()[0] == 44,
        closing_brace() == seq![125u8],
{
    reveal_strlit("{\"total_cpu\":");
    reveal_strlit(".0,\"used_cpu\":");
    reveal_strlit(".");
    reveal_strlit(",\"used_memory\":");
    reveal_strlit(",\"total_memory\":");
    reveal_strlit(",\"timestamp\":");
    reveal_strlit("}");
    assert(decimal_point() =~= seq![46u8]);
    assert(closing_brace() =~= seq![125u8]);
}

/// What follows `a` where `b` holds `a` and then `r` from `pos` on is `r`.
proof fn lemma_suffix(b: Seq<u8>, pos: int, a: Seq<u8>, r: Seq<u8>)
    requires
        0 <= pos <= b.len(),
        b.subrange(pos, b.len() as int) == a + r,
    ensures
        pos + a.len() + r.len() == b.len(),
        b.subrange(pos + a.len(), b.len() as int) == r,
        b.subrange(pos, pos + a.len()) == a,
{
    let tail = b.subrange(pos, b.len() as int);
    assert(tail.len() == a.len() + r.len());
    assert forall|i: int| 0 <= i < r.len() implies b.subrange(pos + a.len(), b.len() as int)[i]
        == r[i] by {
        assert(tail[a.len() + i] == (a + r)[a.len() + i]);
    }
    assert forall|i: int| 0 <= i < a.len() implies b.subrange(pos, pos + a.len())[i] == a[i] by {
        assert(tail[i] == (a + r)[i]);
    }
    assert(b.subrange(pos + a.len(), b.len() as int) =~= r);
    assert(b.subrange(pos, pos + a.len()) =~= a);
}

/// Where `b` holds `lit`, the spelling of `n` and then a byte that is no digit
/// from `pos` on, `field_at` reads `n` and stops before `rest`.
proof fn lemma_field_at(b: Seq<u8>, pos: int, lit: Seq<u8>, n: u64, rest: Seq<u8>)
    requires
        0 <= pos <= b.len(),
        b.subrange(pos, b.len() as int) == lit + (decimal_digits(n as nat) + rest),
        rest.len() > 0,
        !is_digit_byte(rest[0]),
    ensures
        field_at(b, pos, lit) == Some((n, pos + lit.len() + decimal_digits(n as nat).len())),
        b.subrange(pos + lit.len() + decimal_digits(n as nat).len(), b.len() as int) == rest,
{
    let d = decimal_digits(n as nat);
    lemma_suffix(b, pos, lit, d + rest);
    lemma_number_at_spelling(b, pos + lit.len(), n, rest);
    lemma_suffix(b, pos + lit.len(), d, rest);
}

/// The fractional digits of a payload read back as the hundredths written.
proof fn lemma_hundredths(b: Seq<u8>, pos: int, c: nat, rest: Seq<u8>)
    requires
        c < 100,
        0 <= pos <= b.len(),
        b.subrange(pos, b.len() as int) == decimal_point() + (hundredths_digits(c) + rest),
        rest.len() > 0,
        !is_digit_byte(rest[0]),
    ensures
        field_at(b, pos, decimal_point()) matches Some((v, e)) && e == pos + 1
            + hundredths_digits(c).len() && hundredths_of(v, pos + 1, e) == Some(c as u64),
        b.subrange(pos + 1 + hundredths_digits(c).len(), b.len() as int) == rest,
{
    lemma_keys();
    let f = hundredths_digits(c);
    lemma_suffix(b, pos, decimal_point(), f + rest);
    lemma_suffix(b, pos + 1, f, rest);
    lemma_run_len_of_digits(f, rest);
    if c % 10 == 0 {
        assert(f.drop_last() =~= Seq::<u8>::empty());
        assert(digits_value(Seq::<u8>::empty()) == 0);
        assert(digits_value(f) == c / 10);
    } else {
        assert(f.drop_last() =~= seq![(c / 10 + 48) as u8]);
        assert(f.drop_last().drop_last() =~= Seq::<u8>::empty());
        assert(digits_value(Seq::<u8>::empty()) == 0);
        assert(digits_value(f.drop_last()) == c / 10);
        assert(digits_value(f) == c / 10 * 10 + c % 10);
    }
}

/// Reading the fields of a snapshot's payload gives the snapshot back.
#[verifier::rlimit(50)]
pub proof fn lemma_read_fields_of_payload(s: SystemSnapshot)
    ensures
        read_fields(payload(s)) == Some(s),
{
    reveal(read_fields);
    lemma_keys();
    let b = payload(s);
    let whole = (s.used_cpu / 100) as u64;
    let c = (s.used_cpu % 100) as nat;
    let r6 = decimal_digits(s.timestamp as nat) + closing_brace();
    let r5 = decimal_digits(s.total_memory as nat) + (key_timestamp() + r6);
    let r4 = decimal_digits(s.used_memory as nat) + (key_total_memory() + r5);
    let r3 = hundredths_digits(c) + (key_used_memory() + r4);
    let r2 = decimal_digits(whole as nat) + (decimal_point() + r3);
    assert(b.subrange(0, b.len() as int) =~= b);
    lemma_field_at(b, 0, key_total_cpu(), s.total_cpu_capacity, key_used_cpu() + r2);
    let at1: int = key_total_cpu().len() as int + decimal_digits(s.total_cpu_capacity as nat).len();
    lemma_field_at(b, at1, key_used_cpu(), whole, decimal_point() + r3);
    let at2: int = at1 + key_used_cpu().len() + decimal_digits(whole as nat).len();
    lemma_hundredths(b, at2, c, key_used_memory() + r4);
    let at3: int = at2 + 1 + hundredths_digits(c).len();
    assert(whole as int * 100 + c as int == s.used_cpu) by {
        let u = s.used_cpu as int;
        assert(u / 100 * 100 + u % 100 == u) by (nonlinear_arith);
    }
    lemma_field_at(b, at3, key_used_memory(), s.used_memory, key_total_memory() + r5);
    let at4: int = at3 + key_used_memory().len() + decimal_digits(s.used_memory as nat).len();
    lemma_field_at(b, at4, key_total_memory(), s.total_memory, key_timestamp() + r6);
    let at5: int = at4 + key_total_memory().len() + decimal_digits(s.total_memory as nat).len();
    lemma_field_at(b, at5, key_timestamp(), s.timestamp, closing_brace());
    let at6: int = at5 + key_timestamp().len() + decimal_digits(s.timestamp as nat).len();
    lemma_suffix(b, at6, closing_brace(), Seq::<u8>::empty());
    assert(field_at(b, 0, key_total_cpu()) == Some((s.total_cpu_capacity, at1)));
    assert(field_at(b, at1, key_used_cpu()) == Some((whole, at2)));
    assert(field_at(b, at3, key_used_memory()) == Some((s.used_memory, at4)));
    assert(field_at(b, at4, key_total_memory()) == Some((s.total_memory, at5)));
    assert(field_at(b, at5, key_timestamp()) == Some((s.timestamp, at6)));
    assert(has_at(b, at6, closing_brace()) && at6 + 1 == b.len());
}

fn push_bytes(out: &mut Vec<u8>, src: &[u8])
    ensures
        final(out)@ == old(out)@ + src@,
{
    let mut i: usize = 0;
    while i < src.len()
        invariant
            0 <= i <= src@.len(),
            out@ == old(out)@ + src@.subrange(0, i as int),
        decreases src@.len() - i,
    {
        out.push(src[i]);
        i += 1;
        assert(src@.subrange(0, i as int) =~= src@.subrange(0, i - 1).push(src@[i - 1]));
    }
    assert(src@.subrange(0, i as int) =~= src@);
}

fn push_ascii(out: &mut Vec<u8>, text: &str)
    requires
        text.is_ascii(),
    ensures
        final(out)@ == old(out)@ + ascii_bytes(text@),
{
    proof {
        vstd::string::is_ascii_spec_bytes(text);
    }
    let bytes = text.as_bytes();
    assert(bytes@ =~= ascii_bytes(text@));
    push_bytes(out, bytes);
}

fn push_hundredths(out: &mut Vec<u8>, c: u64)
    requires
        c < 100,
    ensures
        final(out)@ == old(out)@ + hundredths_digits(c as nat),
{
    out.push((c / 10) as u8 + 48);
    if c % 10 != 0 {
        out.push((c % 10) as u8 + 48);
    }
    assert(final(out)@ =~= old(out)@ + hundredths_digits(c as nat));
}

/// The payload of `s`: the same snapshot always gives the same bytes.
pub fn encode(s: &SystemSnapshot) -> (r: Vec<u8>)
    ensures
        r@ == payload(*s),
{
    proof {
        reveal_strlit("{\"total_cpu\":");
        reveal_strlit(".0,\"used_cpu\":");
        reveal_strlit(".");
        reveal_strlit(",\"used_memory\":");
        reveal_strlit(",\"total_memory\":");
        reveal_strlit(",\"timestamp\":");
        reveal_strlit("}");
    }
    let mut out: Vec<u8> = Vec::new();
    let ghost t13: Seq<u8> = Seq::empty();
    let ghost t12: Seq<u8> = closing_brace();
    let ghost t11: Seq<u8> = decimal_digits(s.timestamp as nat) + t12;
    let ghost t10: Seq<u8> = key_timestamp() + t11;
    let ghost t9: Seq<u8> = decimal_digits(s.total_memory as nat) + t10;
    let ghost t8: Seq<u8> = key_total_memory() + t9;
    let ghost t7: Seq<u8> = decimal_digits(s.used_memory as nat) + t8;
    let ghost t6: Seq<u8> = key_used_memory() + t7;
    let ghost t5: Seq<u8> = hundredths_digits((s.used_cpu % 100) as nat) + t6;
    let ghost t4: Seq<u8> = decimal_point() + t5;
    let ghost t3: Seq<u8> = decimal_digits((s.used_cpu / 100) as nat) + t4;
    let ghost t2: Seq<u8> = key_used_cpu() + t3;
    let ghost t1: Seq<u8> = decimal_digits(s.total_cpu_capacity as nat) + t2;
    let ghost t0: Seq<u8> = key_total_cpu() + t1;
    assert(t0 == payload(*s));
    assert(out@ + t0 =~= t0);
    let ghost before = out@;
    push_ascii(&mut out, "{\"total_cpu\":");
    proof {
        lemma_concat_associative(before, key_total_cpu(), t1);
    }
    assert(out@ + t1 == payload(*s));
    let ghost before = out@;
    push_decimal(&mut out, s.total_cpu_capacity);
    proof {
        lemma_concat_associative(before, decimal_digits(s.total_cpu_capacity as nat), t2);
    }
    assert(out@ + t2 == payload(*s));
    let ghost before = out@;
    push_ascii(&mut out, ".0,\"used_cpu\":");
    proof {
        lemma_concat_associative(before, key_used_cpu(), t3);
    }
    assert(out@ + t3 == payload(*s));
    let ghost before = out@;
    push_decimal(&mut out, s.used_cpu / 100);
    proof {
        lemma_concat_associative(before, decimal_digits((s.used_cpu / 100) as nat), t4);
    }
    assert(out@ + t4 == payload(*s));
    let ghost before = out@;
    push_ascii(&mut out, ".");
    proof {
        lemma_concat_associative(before, decimal_point(), t5);
    }
    assert(out@ + t5 == payload(*s));
    let ghost before = out@;
    push_hundredths(&mut out, s.used_cpu % 100);
    proof {
        lemma_concat_associative(before, hundredths_digits((s.used_cpu % 100) as nat), t6);
    }
    assert(out@ + t6 == payload(*s));
    let ghost before = out@;
    push_ascii(&mut out, ",\"used_memory\":");
    proof {
        lemma_concat_associative(before, key_used_memory(), t7);
    }
    assert(out@ + t7 == payload(*s));
    let ghost before = out@;
    push_decimal(&mut out, s.used_memory);
    proof {
        lemma_concat_associative(before, decimal_digits(s.used_memory as nat), t8);
    }
    assert(out@ + t8 == payload(*s));
    let ghost before = out@;
    push_ascii(&mut out, ",\"total_memory\":");
    proof {
        lemma_concat_associative(before, key_total_memory(), t9);
    }
    assert(out@ + t9 == payload(*s));
    let ghost before = out@;
    push_decimal(&mut out, s.total_memory);
    proof {
        lemma_concat_associative(before, decimal_digits(s.total_memory as nat), t10);
    }
    assert(out@ + t10 == payload(*s));
    let ghost before = out@;
    push_ascii(&mut out, ",\"timestamp\":");
    proof {
        lemma_concat_associative(before, key_timestamp(), t11);
    }
    assert(out@ + t11 == payload(*s));
    let ghost before = out@;
    push_decimal(&mut out, s.timestamp);
    proof {
        lemma_concat_associative(before, decimal_digits(s.timestamp as nat), t12);
    }
    assert(out@ + t12 == payload(*s));
    let ghost before = out@;
    push_ascii(&mut out, "}");
    assert(out@ == before + t12);
    out
}

fn has_bytes_at(b: &[u8], pos: usize, lit: &[u8]) -> (r: bool)
    ensures
        r == has_at(b@, pos as int, lit@),
{
    let n = b.len();
    if lit.len() > n || pos > n - lit.len() {
        return false;
    }
    let mut i: usize = 0;
    while i < lit.len()
        invariant
            0 <= i <= lit@.len(),
            n == b@.len(),
            pos + lit@.len() <= b@.len(),
            forall|j: int| 0 <= j < i ==> b@[pos + j] == lit@[j],
        decreases lit@.len() - i,
    {
        if b[pos + i] != lit[i] {
            assert(b@.subrange(pos as int, pos + lit@.len())[i as int] != lit@[i as int]);
            return false;
        }
        i += 1;
    }
    assert(b@.subrange(pos as int, pos + lit@.len()) =~= lit@);
    true
}

fn read_field(b: &[u8], pos: usize, key: &str) -> (r: Option<(u64, usize)>)
    requires
        key.is_ascii(),
    ensures
        match r {
            Some((v, e)) => field_at(b@, pos as int, ascii_bytes(key@)) == Some((v, e as int)),
            None => field_at(b@, pos as int, ascii_bytes(key@)) is None,
        },
{
    proof {
        vstd::string::is_ascii_spec_bytes(key);
    }
    let lit = key.as_bytes();
    let n = b.len();
    assert(lit@ =~= ascii_bytes(key@));
    if has_bytes_at(b, pos, lit) {
        parse_number(b, pos + lit.len())
    } else {
        None
    }
}

fn read_payload_fields(b: &[u8]) -> (r: Option<SystemSnapshot>)
    ensures
        r == read_fields(b@),
{
    reveal(read_fields);
    proof {
        reveal_strlit("{\"total_cpu\":");
        reveal_strlit(".0,\"used_cpu\":");
        reveal_strlit(".");
        reveal_strlit(",\"used_memory\":");
        reveal_strlit(",\"total_memory\":");
        reveal_strlit(",\"timestamp\":");
        reveal_strlit("}");
    }
    let (total, at1) = match read_field(b, 0, "{\"total_cpu\":") {
        Some(f) => f,
        None => return None,
    };
    let (whole, at2) = match read_field(b, at1, ".0,\"used_cpu\":") {
        Some(f) => f,
        None => return None,
    };
    let (frac, at3) = match read_field(b, at2, ".") {
        Some(f) => f,
        None => return None,
    };
    let c: u64 = if at3 - at2 == 2 && frac < 10 {
        frac * 10
    } else if at3 - at2 == 3 {
        frac
    } else {
        return None;
    };
    let used_cpu = match whole.checked_mul(100) {
        Some(w) => match w.checked_add(c) {
            Some(u) => u,
            None => return None,
        },
        None => return None,
    };
    let (used_mem, at4) = match read_field(b, at3, ",\"used_memory\":") {
        Some(f) => f,
        None => return None,
    };
    let (total_mem, at5) = match read_field(b, at4, ",\"total_memory\":") {
        Some(f) => f,
        None => return None,
    };
    let (ts, at6) = match read_field(b, at5, ",\"timestamp\":") {
        Some(f) => f,
        None => return None,
    };
    proof {
        lemma_keys();
    }
    if at6 >= b.len() || b[at6] != 125 || at6 + 1 != b.len() {
        if at6 < b.len() {
            assert(b@.subrange(at6 as int, at6 + 1)[0] == b@[at6 as int]);
        }
        return None;
    }
    assert(b@.subrange(at6 as int, at6 + 1) =~= closing_brace());
    Some(
        SystemSnapshot {
            total_cpu_capacity: total,
            used_cpu,
            used_memory: used_mem,
            total_memory: total_mem,
            timestamp: ts,
        },
    )
}

fn bytes_equal(a: &[u8], b: &[u8]) -> (r: bool)
    ensures
        r == (a@ == b@),
{
    if a.len() != b.len() {
        return false;
    }
    assert(a@.subrange(0, b@.len() as int) =~= a@);
    has_bytes_at(a, 0, b)
}

/// The snapshot whose payload `b` is, if there is one.
pub fn decode(b: &[u8]) -> (r: Option<SystemSnapshot>)
    ensures
        forall|s: SystemSnapshot| (r == Some(s)) <==> b@ == payload(s),
{
    match read_payload_fields(b) {
        None => {
            assert forall|s: SystemSnapshot| b@ != payload(s) by {
                lemma_read_fields_of_payload(s);
            }
            None
        },
        Some(s) => {
            let e = encode(&s);
            if bytes_equal(e.as_slice(), b) {
                assert forall|t: SystemSnapshot| b@ == payload(t) implies t == s by {
                    lemma_read_fields_of_payload(t);
                }
                Some(s)
            } else {
                assert forall|t: SystemSnapshot| b@ != payload(t) by {
                    lemma_read_fields_of_payload(t);
                }
                None
            }
        },
    }
}

/// Decoding undoes encoding: the payload of `s` is the payload of no other
/// snapshot, so `decode` gives back exactly `s` from the bytes `encode` wrote.
pub proof fn lemma_decode_encode(s: SystemSnapshot)
    ensures
        forall|t: SystemSnapshot| payload(t) == payload(s) <==> t == s,
{
    assert forall|t: SystemSnapshot| payload(t) == payload(s) implies t == s by {
        lemma_read_fields_of_payload(s);
        lemma_read_fields_of_payload(t);
    }
}

/// Encoding is deterministic: equal snapshots have byte-identical payloads.
pub proof fn lemma_encode_deterministic(s1: SystemSnapshot, s2: SystemSnapshot)
    requires
        s1 == s2,
    ensures
        payload(s1) == payload(s2),
{
}

} // verus!
