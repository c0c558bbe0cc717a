//! The textual formats of the result sink and the envelope corpus, as
//! verified byte-level formatting and parsing: latency series files (one
//! decimal nanosecond count per line), size-report lines
//! (`name: byte-count`), and envelope tier files (four comma-separated
//! fixed-point coordinates per line). The file handles themselves live
//! with the caller; the library only produces and consumes the bytes.

use vstd::prelude::*;

use crate::envelope::Envelope;

verus! {

/// The decimal digits of `n`, most significant first, as ASCII bytes.
pub open spec fn dec_digits(n: nat) -> Seq<u8>
    decreases n,
{
    if n < 10 {
        seq![(48 + n) as u8]
    } else {
        dec_digits(n / 10).push((48 + n % 10) as u8)
    }
}

/// The decimal text of a signed value: a minus sign before the digits of
/// the magnitude when negative.
pub open spec fn dec_digits_signed(n: int) -> Seq<u8> {
    if n < 0 {
        seq![45u8] + dec_digits((-n) as nat)
    } else {
        dec_digits(n as nat)
    }
}

/// Appends the decimal digits of `n` to `out`.
pub fn push_u64_dec(out: &mut Vec<u8>, n: u64)
    ensures
        final(out)@ =~= old(out)@ + dec_digits(n as nat),
    decreases n,
{
    if n >= 10 {
        push_u64_dec(out, n / 10);
    }
    out.push(48 + (n % 10) as u8);
}

/// Appends the decimal text of `n`, with a leading minus sign when
/// negative, to `out`.
pub fn push_i64_dec(out: &mut Vec<u8>, n: i64)
    ensures
        final(out)@ =~= old(out)@ + dec_digits_signed(n as int),
{
    if n < 0 {
        out.push(45);
        let magnitude: u64 = (-(n as i128)) as u64;
        push_u64_dec(out, magnitude);
    } else {
        push_u64_dec(out, n as u64);
    }
}

/// The contents of a latency series file: one decimal nanosecond count per
/// line, one line per trial, in trial order.
pub open spec fn series_lines(samples: Seq<u64>) -> Seq<u8>
    decreases samples.len(),
{
    if samples.len() == 0 {
        Seq::empty()
    } else {
        series_lines(samples.drop_last()) + dec_digits(samples.last() as nat) + seq![10u8]
    }
}

/// Formats a latency series for persistence.
pub fn series_file_contents(samples: &Vec<u64>) -> (r: Vec<u8>)
    ensures
        r@ =~= series_lines(samples@),
{
    let mut out: Vec<u8> = Vec::new();
    let mut i: usize = 0;
    while i < samples.len()
        invariant
            i <= samples@.len(),
            out@ =~= series_lines(samples@.take(i as int)),
        decreases samples@.len() - i,
    {
        proof {
            assert(samples@.take(i + 1).drop_last() =~= samples@.take(i as int));
        }
        push_u64_dec(&mut out, samples[i]);
        out.push(10);
        i = i + 1;
    }
    proof {
        assert(samples@.take(samples@.len() as int) =~= samples@);
    }
    out
}

/// One line of an envelope tier file: the four edges as comma-separated
/// decimal values, in the order minx, maxx, miny, maxy.
pub open spec fn envelope_line(env: Envelope) -> Seq<u8> {
    dec_digits_signed(env.minx as int) + seq![44u8] + dec_digits_signed(env.maxx as int) + seq![
        44u8,
    ] + dec_digits_signed(env.miny as int) + seq![44u8] + dec_digits_signed(env.maxy as int)
}

/// The contents of an envelope tier file: one line per envelope.
pub open spec fn tier_file_lines(envs: Seq<Envelope>) -> Seq<u8>
    decreases envs.len(),
{
    if envs.len() == 0 {
        Seq::empty()
    } else {
        tier_file_lines(envs.drop_last()) + envelope_line(envs.last()) + seq![10u8]
    }
}

/// Formats one envelope as a tier-file line, without the trailing newline.
pub fn envelope_line_bytes(env: &Envelope) -> (r: Vec<u8>)
    ensures
        r@ =~= envelope_line(*env),
{
    let mut out: Vec<u8> = Vec::new();
    push_i64_dec(&mut out, env.minx);
    out.push(44);
    push_i64_dec(&mut out, env.maxx);
    out.push(44);
    push_i64_dec(&mut out, env.miny);
    out.push(44);
    push_i64_dec(&mut out, env.maxy);
    out
}

/// Formats a whole tier file for persistence.
pub fn tier_file_contents(envs: &Vec<Envelope>) -> (r: Vec<u8>)
    ensures
        r@ =~= tier_file_lines(envs@),
{
    let mut out: Vec<u8> = Vec::new();
    let mut i: usize = 0;
    while i < envs.len()
        invariant
            i <= envs@.len(),
            out@ =~= tier_file_lines(envs@.take(i as int)),
        decreases envs@.len() - i,
    {
        proof {
            assert(envs@.take(i + 1).drop_last() =~= envs@.take(i as int));
        }
        let line = envelope_line_bytes(&envs[i]);
        let mut j: usize = 0;
        while j < line.len()
            invariant
                j <= line@.len(),
                out@ =~= tier_file_lines(envs@.take(i as int)) + line@.take(j as int),
                line@ =~= envelope_line(envs@[i as int]),
                i < envs@.len(),
            decreases line@.len() - j,
        {
            out.push(line[j]);
            j = j + 1;
        }
        out.push(10);
        i = i + 1;
    }
    proof {
        assert(envs@.take(envs@.len() as int) =~= envs@);
    }
    out
}

/// One size-report line: `name: byte-count` and a newline.
pub open spec fn size_record_line(name: Seq<u8>, bytes: nat) -> Seq<u8> {
    name + seq![58u8, 32u8] + dec_digits(bytes) + seq![10u8]
}

/// Formats one size record for appending to the shared size file.
pub fn size_record_bytes(name: &Vec<u8>, bytes: usize) -> (r: Vec<u8>)
    ensures
        r@ =~= size_record_line(name@, bytes as nat),
{
    let mut out: Vec<u8> = Vec::new();
    let mut i: usize = 0;
    while i < name.len()
        invariant
            i <= name@.len(),
            out@ =~= name@.take(i as int),
        decreases name@.len() - i,
    {
        out.push(name[i]);
        i = i + 1;
    }
    proof {
        assert(name@.take(name@.len() as int) =~= name@);
    }
    out.push(58);
    out.push(32);
    push_u64_dec(&mut out, bytes as u64);
    out.push(10);
    out
}

/// Whether a byte is an ASCII decimal digit.
pub open spec fn is_digit(b: u8) -> bool {
    48 <= b <= 57
}

/// The numeric value of a digit sequence, most significant first.
pub open spec fn digits_value(s: Seq<u8>) -> int
    decreases s.len(),
{
    if s.len() == 0 {
        0
    } else {
        digits_value(s.drop_last()) * 10 + s.last() - 48
    }
}

/// A valid unsigned decimal field: at least one byte, all digits.
pub open spec fn valid_digits(s: Seq<u8>) -> bool {
    s.len() >= 1 && forall|i: int| 0 <= i < s.len() ==> is_digit(#[trigger] s[i])
}

/// A valid signed 64-bit decimal field: an optional minus sign before the
/// digits, with the value in range for an `i64`.
pub open spec fn valid_i64_field(s: Seq<u8>) -> bool {
    if s.len() >= 1 && s[0] == 45 {
        valid_digits(s.subrange(1, s.len() as int)) && digits_value(
            s.subrange(1, s.len() as int),
        ) <= 0x8000000000000000
    } else {
        valid_digits(s) && digits_value(s) <= i64::MAX
    }
}

/// The value of a valid signed decimal field.
pub open spec fn i64_field_value(s: Seq<u8>) -> int {
    if s.len() >= 1 && s[0] == 45 {
        -digits_value(s.subrange(1, s.len() as int))
    } else {
        digits_value(s)
    }
}

/// Digit sequences denote non-negative values.
proof fn lemma_digits_value_nonneg(s: Seq<u8>)
    requires
        forall|i: int| 0 <= i < s.len() ==> is_digit(#[trigger] s[i]),
    ensures
        digits_value(s) >= 0,
    decreases s.len(),
{
    if s.len() > 0 {
        lemma_digits_value_nonneg(s.drop_last());
    }
}

/// The value of a digit sequence is at least the value of any prefix.
proof fn lemma_digits_value_mono(s: Seq<u8>, j: int)
    requires
        forall|i: int| 0 <= i < s.len() ==> is_digit(#[trigger] s[i]),
        0 <= j <= s.len(),
    ensures
        digits_value(s) >= digits_value(s.take(j)),
    decreases s.len() - j,
{
    if j < s.len() {
        lemma_digits_value_mono(s, j + 1);
        assert(s.take(j + 1).drop_last() =~= s.take(j));
        assert(forall|i: int| 0 <= i < s.take(j).len() ==> is_digit(#[trigger] s.take(j)[i]));
        lemma_digits_value_nonneg(s.take(j));
    } else {
        assert(s.take(j) =~= s);
    }
}

/// Parses the digit range `[from, to)` of `s` as an unsigned value,
/// returning `None` exactly when the range is empty, holds a non-digit, or
/// denotes a value above `u64::MAX`.
pub fn parse_u64_digits(s: &[u8], from: usize, to: usize) -> (r: Option<u64>)
    requires
        from <= to <= s@.len(),
    ensures
        match r {
            Some(v) => valid_digits(s@.subrange(from as int, to as int)) && v == digits_value(
                s@.subrange(from as int, to as int),
            ),
            None => !(valid_digits(s@.subrange(from as int, to as int)) && digits_value(
                s@.subrange(from as int, to as int),
            ) <= u64::MAX),
        },
{
    let ghost whole = s@.subrange(from as int, to as int);
    if from == to {
        return Option::None;
    }
    let mut acc: u64 = 0;
    let mut i: usize = from;
    while i < to
        invariant
            from <= i <= to <= s@.len(),
            whole == s@.subrange(from as int, to as int),
            forall|k: int| from <= k < i ==> is_digit(#[trigger] s@[k]),
            acc == digits_value(s@.subrange(from as int, i as int)),
        decreases to - i,
    {
        let b = s[i];
        if b < 48 || b > 57 {
            proof {
                assert(!is_digit(whole[i - from]));
            }
            return Option::None;
        }
        let d: u64 = (b - 48) as u64;
        proof {
            assert(s@.subrange(from as int, i + 1).drop_last() =~= s@.subrange(
                from as int,
                i as int,
            ));
            assert(s@.subrange(from as int, i + 1).last() == s@[i as int]);
        }
        let next = match acc.checked_mul(10) {
            Some(m) => m.checked_add(d),
            None => Option::None,
        };
        match next {
            Some(v) => {
                acc = v;
            },
            None => {
                // The prefix through this digit already exceeds u64::MAX,
                // and appending digits never shrinks the value.
                proof {
                    assert(digits_value(s@.subrange(from as int, i + 1)) > u64::MAX);
                    if valid_digits(whole) {
                        lemma_digits_value_mono(whole, i + 1 - from);
                        assert(whole.take(i + 1 - from) =~= s@.subrange(from as int, i + 1));
                    }
                }
                return Option::None;
            },
        }
        i = i + 1;
    }
    proof {
        assert(s@.subrange(from as int, to as int) =~= whole);
        assert(forall|k: int| 0 <= k < whole.len() ==> is_digit(#[trigger] whole[k]));
    }
    Option::Some(acc)
}

/// Parses the range `[from, to)` of `s` as a signed 64-bit decimal field,
/// returning `None` exactly when the field is not a valid in-range field.
pub fn parse_i64_field(s: &[u8], from: usize, to: usize) -> (r: Option<i64>)
    requires
        from <= to <= s@.len(),
    ensures
        match r {
            Some(v) => valid_i64_field(s@.subrange(from as int, to as int)) && v
                == i64_field_value(s@.subrange(from as int, to as int)),
            None => !valid_i64_field(s@.subrange(from as int, to as int)),
        },
{
    let ghost whole = s@.subrange(from as int, to as int);
    if from == to {
        return Option::None;
    }
    if s[from] == 45 {
        proof {
            assert(whole.subrange(1, whole.len() as int) =~= s@.subrange(from + 1, to as int));
        }
        match parse_u64_digits(s, from + 1, to) {
            Some(v) => {
                if v <= 0x8000000000000000 {
                    Option::Some((-(v as i128)) as i64)
                } else {
                    Option::None
                }
            },
            None => {
                proof {
                    if valid_digits(whole.subrange(1, whole.len() as int)) && digits_value(
                        whole.subrange(1, whole.len() as int),
                    ) <= 0x8000000000000000 {
                        assert(digits_value(whole.subrange(1, whole.len() as int)) <= u64::MAX);
                    }
                }
                Option::None
            },
        }
    } else {
        match parse_u64_digits(s, from, to) {
            Some(v) => {
                if v <= i64::MAX as u64 {
                    Option::Some(v as i64)
                } else {
                    Option::None
                }
            },
            None => Option::None,
        }
    }
}

/// Index of the first occurrence of `b` at or after `from`, or the length
/// of `s` when there is none.
pub open spec fn find_byte(s: Seq<u8>, b: u8, from: int) -> int
    decreases s.len() - from,
{
    if from < 0 || from >= s.len() {
        s.len() as int
    } else if s[from] == b {
        from
    } else {
        find_byte(s, b, from + 1)
    }
}

/// Runtime scan matching [`find_byte`].
pub fn find_byte_from(s: &[u8], b: u8, from: usize) -> (r: usize)
    requires
        from <= s@.len(),
    ensures
        r == find_byte(s@, b, from as int),
        from <= r <= s@.len(),
        r < s@.len() ==> s@[r as int] == b,
        forall|j: int| from <= j < r ==> s@[j] != b,
    decreases s@.len() - from,
{
    let mut i: usize = from;
    while i < s.len()
        invariant
            from <= i <= s@.len(),
            find_byte(s@, b, from as int) == find_byte(s@, b, i as int),
            forall|j: int| from <= j < i ==> s@[j] != b,
        decreases s@.len() - i,
    {
        if s[i] == b {
            return i;
        }
        i = i + 1;
    }
    s.len()
}

/// A well-formed tier-file line: exactly four valid signed decimal fields
/// separated by three commas.
pub open spec fn valid_envelope_line(s: Seq<u8>) -> bool {
    let c1 = find_byte(s, 44, 0);
    let c2 = find_byte(s, 44, c1 + 1);
    let c3 = find_byte(s, 44, c2 + 1);
    &&& c1 < s.len()
    &&& c2 < s.len()
    &&& c3 < s.len()
    &&& find_byte(s, 44, c3 + 1) == s.len()
    &&& valid_i64_field(s.subrange(0, c1))
    &&& valid_i64_field(s.subrange(c1 + 1, c2))
    &&& valid_i64_field(s.subrange(c2 + 1, c3))
    &&& valid_i64_field(s.subrange(c3 + 1, s.len() as int))
}

/// The envelope a valid tier-file line denotes, fields in the order minx,
/// maxx, miny, maxy.
pub open spec fn envelope_line_value(s: Seq<u8>) -> Envelope {
    let c1 = find_byte(s, 44, 0);
    let c2 = find_byte(s, 44, c1 + 1);
    let c3 = find_byte(s, 44, c2 + 1);
    Envelope {
        minx: i64_field_value(s.subrange(0, c1)) as i64,
        maxx: i64_field_value(s.subrange(c1 + 1, c2)) as i64,
        miny: i64_field_value(s.subrange(c2 + 1, c3)) as i64,
        maxy: i64_field_value(s.subrange(c3 + 1, s.len() as int)) as i64,
    }
}

/// Decimal rendering produces a non-empty, all-digit byte sequence.
proof fn lemma_dec_digits_are_digits(n: nat)
    ensures
        dec_digits(n).len() >= 1,
        forall|i: int| 0 <= i < dec_digits(n).len() ==> is_digit(#[trigger] dec_digits(n)[i]),
    decreases n,
{
    if n >= 10 {
        lemma_dec_digits_are_digits(n / 10);
    }
}

/// Parsing the digits of a rendered value gives the value back.
proof fn lemma_dec_digits_value(n: nat)
    ensures
        digits_value(dec_digits(n)) == n,
    decreases n,
{
    if n >= 10 {
        lemma_dec_digits_value(n / 10);
        assert(dec_digits(n).drop_last() =~= dec_digits(n / 10));
        assert(dec_digits(n).last() == (48 + n % 10) as u8);
        assert(digits_value(dec_digits(n)) == digits_value(dec_digits(n / 10)) * 10 + (48 + n % 10)
            - 48);
        assert((n / 10) * 10 + n % 10 == n) by (nonlinear_arith);
    } else {
        assert(dec_digits(n).drop_last() =~= Seq::<u8>::empty());
        assert(digits_value(dec_digits(n).drop_last()) == 0);
        assert(dec_digits(n).last() == (48 + n) as u8);
    }
}

/// A rendered signed field is a valid field denoting its value, made only
/// of digits and at most one minus sign — in particular free of commas
/// and newlines.
proof fn lemma_signed_field_valid(n: int)
    requires
        i64::MIN <= n <= i64::MAX,
    ensures
        dec_digits_signed(n).len() >= 1,
        forall|i: int| 0 <= i < dec_digits_signed(n).len() ==> (is_digit(
            #[trigger] dec_digits_signed(n)[i],
        ) || dec_digits_signed(n)[i] == 45),
        forall|i: int| 0 <= i < dec_digits_signed(n).len() ==> #[trigger] dec_digits_signed(n)[i]
            != 44,
        forall|i: int| 0 <= i < dec_digits_signed(n).len() ==> #[trigger] dec_digits_signed(n)[i]
            != 10,
        valid_i64_field(dec_digits_signed(n)),
        i64_field_value(dec_digits_signed(n)) == n,
{
    let f = dec_digits_signed(n);
    if n < 0 {
        lemma_dec_digits_are_digits((-n) as nat);
        lemma_dec_digits_value((-n) as nat);
        assert(f[0] == 45u8);
        assert(f.subrange(1, f.len() as int) =~= dec_digits((-n) as nat));
    } else {
        lemma_dec_digits_are_digits(n as nat);
        lemma_dec_digits_value(n as nat);
        assert(is_digit(f[0]));
    }
}

/// The first occurrence of `b` at or after `from` is at `k` when nothing
/// before it in that range is `b` and `k` holds `b` or ends the sequence.
proof fn lemma_find_byte_range(s: Seq<u8>, b: u8, from: int, k: int)
    requires
        0 <= from <= k <= s.len(),
        forall|j: int| from <= j < k ==> #[trigger] s[j] != b,
        k == s.len() || s[k] == b,
    ensures
        find_byte(s, b, from) == k,
    decreases k - from,
{
    if from < k {
        lemma_find_byte_range(s, b, from + 1, k);
    }
}

/// Formatting an envelope and parsing the line back yields the same
/// envelope: the tier files the corpus generator writes are read back
/// verbatim by the preset-query benchmark.
pub proof fn lemma_envelope_line_round_trip(env: Envelope)
    ensures
        valid_envelope_line(envelope_line(env)),
        envelope_line_value(envelope_line(env)) == env,
{
    let f1 = dec_digits_signed(env.minx as int);
    let f2 = dec_digits_signed(env.maxx as int);
    let f3 = dec_digits_signed(env.miny as int);
    let f4 = dec_digits_signed(env.maxy as int);
    lemma_signed_field_valid(env.minx as int);
    lemma_signed_field_valid(env.maxx as int);
    lemma_signed_field_valid(env.miny as int);
    lemma_signed_field_valid(env.maxy as int);
    let s = envelope_line(env);
    let c1 = f1.len() as int;
    let c2 = c1 + 1 + f2.len();
    let c3 = c2 + 1 + f3.len();
    assert(s.len() == f1.len() + f2.len() + f3.len() + f4.len() + 3);
    assert(s[c1] == 44u8);
    assert(s[c2] == 44u8);
    assert(s[c3] == 44u8);
    assert(forall|j: int| 0 <= j < c1 ==> #[trigger] s[j] != 44 && s[j] == f1[j]);
    assert(forall|j: int| c1 < j < c2 ==> #[trigger] s[j] != 44 && s[j] == f2[j - c1 - 1]);
    assert(forall|j: int| c2 < j < c3 ==> #[trigger] s[j] != 44 && s[j] == f3[j - c2 - 1]);
    assert(forall|j: int| c3 < j < s.len() ==> #[trigger] s[j] != 44 && s[j] == f4[j - c3 - 1]);
    lemma_find_byte_range(s, 44, 0, c1);
    lemma_find_byte_range(s, 44, c1 + 1, c2);
    lemma_find_byte_range(s, 44, c2 + 1, c3);
    lemma_find_byte_range(s, 44, c3 + 1, s.len() as int);
    assert(s.subrange(0, c1) =~= f1);
    assert(s.subrange(c1 + 1, c2) =~= f2);
    assert(s.subrange(c2 + 1, c3) =~= f3);
    assert(s.subrange(c3 + 1, s.len() as int) =~= f4);
}

/// Parses one tier-file line (without its newline), returning `None`
/// exactly when the line is not a well-formed four-field record.
pub fn parse_envelope_line(line: &[u8]) -> (r: Option<Envelope>)
    ensures
        match r {
            Some(env) => valid_envelope_line(line@) && env == envelope_line_value(line@),
            None => !valid_envelope_line(line@),
        },
{
    let n = line.len();
    let c1 = find_byte_from(line, 44, 0);
    if c1 == n {
        return Option::None;
    }
    let c2 = find_byte_from(line, 44, c1 + 1);
    if c2 == n {
        return Option::None;
    }
    let c3 = find_byte_from(line, 44, c2 + 1);
    if c3 == n {
        return Option::None;
    }
    let c4 = find_byte_from(line, 44, c3 + 1);
    if c4 != n {
        return Option::None;
    }
    let minx = match parse_i64_field(line, 0, c1) {
        Some(v) => v,
        None => {
            return Option::None;
        },
    };
    let maxx = match parse_i64_field(line, c1 + 1, c2) {
        Some(v) => v,
        None => {
            return Option::None;
        },
    };
    let miny = match parse_i64_field(line, c2 + 1, c3) {
        Some(v) => v,
        None => {
            return Option::None;
        },
    };
    let maxy = match parse_i64_field(line, c3 + 1, n) {
        Some(v) => v,
        None => {
            return Option::None;
        },
    };
    Option::Some(Envelope { minx, maxx, miny, maxy })
}

/// A well-formed tier file: a sequence of newline-terminated well-formed
/// envelope lines, possibly empty.
pub open spec fn valid_tier_file(s: Seq<u8>) -> bool
    decreases s.len(),
{
    if s.len() == 0 {
        true
    } else {
        let k = find_byte(s, 10, 0);
        &&& 0 <= k < s.len()
        &&& valid_envelope_line(s.subrange(0, k))
        &&& valid_tier_file(s.subrange(k + 1, s.len() as int))
    }
}

/// The envelopes a well-formed tier file denotes, in line order.
pub open spec fn tier_file_value(s: Seq<u8>) -> Seq<Envelope>
    decreases s.len(),
{
    if s.len() == 0 {
        Seq::empty()
    } else {
        let k = find_byte(s, 10, 0);
        if 0 <= k < s.len() {
            seq![envelope_line_value(s.subrange(0, k))] + tier_file_value(
                s.subrange(k + 1, s.len() as int),
            )
        } else {
            Seq::empty()
        }
    }
}

/// Parses a whole tier file, returning `None` exactly when some line is
/// malformed or the final line is unterminated.
pub fn parse_tier_file(bytes: &[u8]) -> (r: Option<Vec<Envelope>>)
    ensures
        match r {
            Some(v) => valid_tier_file(bytes@) && v@ == tier_file_value(bytes@),
            None => !valid_tier_file(bytes@),
        },
{
    let mut out: Vec<Envelope> = Vec::new();
    let mut pos: usize = 0;
    proof {
        assert(bytes@.subrange(0, bytes@.len() as int) =~= bytes@);
    }
    while pos < bytes.len()
        invariant
            pos <= bytes@.len(),
            valid_tier_file(bytes@) == valid_tier_file(bytes@.subrange(pos as int, bytes@.len() as int)),
            valid_tier_file(bytes@) ==> tier_file_value(bytes@) =~= out@ + tier_file_value(
                bytes@.subrange(pos as int, bytes@.len() as int),
            ),
        decreases bytes@.len() - pos,
    {
        let ghost suf = bytes@.subrange(pos as int, bytes@.len() as int);
        let k = find_byte_from(bytes, 10, pos);
        proof {
            if k == bytes@.len() {
                lemma_find_byte_range(suf, 10, 0, suf.len() as int);
            } else {
                lemma_find_byte_range(suf, 10, 0, k - pos);
            }
        }
        if k == bytes.len() {
            // The remaining bytes hold no newline, so the final line is
            // unterminated and the suffix — hence the file — is invalid.
            return Option::None;
        }
        let line = vstd::slice::slice_subrange(bytes, pos, k);
        proof {
            assert(line@ =~= suf.subrange(0, k - pos));
            assert(suf.subrange(k - pos + 1, suf.len() as int) =~= bytes@.subrange(
                k + 1,
                bytes@.len() as int,
            ));
        }
        match parse_envelope_line(line) {
            Some(env) => {
                out.push(env);
            },
            None => {
                return Option::None;
            },
        }
        pos = k + 1;
    }
    proof {
        assert(bytes@.subrange(bytes@.len() as int, bytes@.len() as int) =~= Seq::<u8>::empty());
    }
    Option::Some(out)
}

/// A rendered tier-file line holds exactly one newline, at its end.
proof fn lemma_envelope_line_no_newline(env: Envelope)
    ensures
        forall|i: int| 0 <= i < envelope_line(env).len() ==> #[trigger] envelope_line(env)[i]
            != 10,
{
    lemma_signed_field_valid(env.minx as int);
    lemma_signed_field_valid(env.maxx as int);
    lemma_signed_field_valid(env.miny as int);
    lemma_signed_field_valid(env.maxy as int);
}

/// A tier file unfolds from the front: its bytes are the first envelope's
/// line, a newline, and the remaining envelopes' file.
proof fn lemma_tier_file_lines_unfold_front(envs: Seq<Envelope>)
    requires
        envs.len() > 0,
    ensures
        tier_file_lines(envs) =~= envelope_line(envs[0]) + seq![10u8] + tier_file_lines(
            envs.drop_first(),
        ),
    decreases envs.len(),
{
    if envs.len() == 1 {
        assert(envs.drop_last() =~= Seq::<Envelope>::empty());
        assert(envs.drop_first() =~= Seq::<Envelope>::empty());
    } else {
        lemma_tier_file_lines_unfold_front(envs.drop_last());
        assert(envs.drop_last()[0] == envs[0]);
        assert(envs.drop_last().drop_first() =~= envs.drop_first().drop_last());
        assert(envs.drop_first().last() == envs.last());
        assert(tier_file_lines(envs.drop_first()) == tier_file_lines(envs.drop_first().drop_last())
            + envelope_line(envs.drop_first().last()) + seq![10u8]);
    }
}

/// Formatting a set of envelopes and parsing the file back yields the
/// same set: the tier files the corpus generator writes are read back
/// verbatim by the preset-query benchmark.
pub proof fn lemma_tier_file_round_trip(envs: Seq<Envelope>)
    ensures
        valid_tier_file(tier_file_lines(envs)),
        tier_file_value(tier_file_lines(envs)) =~= envs,
    decreases envs.len(),
{
    if envs.len() > 0 {
        lemma_tier_file_lines_unfold_front(envs);
        lemma_envelope_line_no_newline(envs[0]);
        lemma_envelope_line_round_trip(envs[0]);
        lemma_tier_file_round_trip(envs.drop_first());
        let s = tier_file_lines(envs);
        let line = envelope_line(envs[0]);
        let k = line.len() as int;
        assert(forall|j: int| 0 <= j < k ==> #[trigger] s[j] != 10 && s[j] == line[j]);
        assert(s[k] == 10u8);
        lemma_find_byte_range(s, 10, 0, k);
        assert(s.subrange(0, k) =~= line);
        assert(s.subrange(k + 1, s.len() as int) =~= tier_file_lines(envs.drop_first()));
        assert(tier_file_value(s) =~= seq![envs[0]] + tier_file_value(
            tier_file_lines(envs.drop_first()),
        ));
        assert(seq![envs[0]] + envs.drop_first() =~= envs);
    }
}

} // verus!
