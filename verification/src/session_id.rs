use vstd::prelude::*;

use std::time::Duration;
use std::time::SystemTime;
use std::time::SystemTimeError;

verus! {

// ---------------------------------------------------------------------------
// Hexadecimal text
// ---------------------------------------------------------------------------

/// The lower-case hexadecimal digit for `d` (for `d < 16`).
pub open spec fn hex_digit(d: nat) -> char {
    if d == 0 { '0' }
    else if d == 1 { '1' }
    else if d == 2 { '2' }
    else if d == 3 { '3' }
    else if d == 4 { '4' }
    else if d == 5 { '5' }
    else if d == 6 { '6' }
    else if d == 7 { '7' }
    else if d == 8 { '8' }
    else if d == 9 { '9' }
    else if d == 10 { 'a' }
    else if d == 11 { 'b' }
    else if d == 12 { 'c' }
    else if d == 13 { 'd' }
    else if d == 14 { 'e' }
    else { 'f' }
}

/// The value of a lower-case hexadecimal digit.
pub open spec fn digit_value(c: char) -> nat {
    if c == '0' { 0 }
    else if c == '1' { 1 }
    else if c == '2' { 2 }
    else if c == '3' { 3 }
    else if c == '4' { 4 }
    else if c == '5' { 5 }
    else if c == '6' { 6 }
    else if c == '7' { 7 }
    else if c == '8' { 8 }
    else if c == '9' { 9 }
    else if c == 'a' { 10 }
    else if c == 'b' { 11 }
    else if c == 'c' { 12 }
    else if c == 'd' { 13 }
    else if c == 'e' { 14 }
    else { 15 }
}

/// The hexadecimal digits of `v`, most significant first, without leading zeros
/// (zero is the single digit `0`).
pub open spec fn hex_digits(v: nat) -> Seq<char>
    decreases v,
{
    if v < 16 {
        seq![hex_digit(v)]
    } else {
        hex_digits(v / 16).push(hex_digit(v % 16))
    }
}

/// `n` zero digits.
pub open spec fn zeros(n: nat) -> Seq<char> {
    Seq::new(n, |i: int| '0')
}

/// The hexadecimal text of `v`, padded on the left with zeros to at least
/// `width` digits (what `{:0width$x}` writes).
pub open spec fn zero_padded_hex(v: nat, width: nat) -> Seq<char> {
    let d = hex_digits(v);
    if d.len() < width {
        zeros((width - d.len()) as nat) + d
    } else {
        d
    }
}

/// The number that a text of hexadecimal digits denotes.
pub open spec fn hex_value(s: Seq<char>) -> nat
    decreases s.len(),
{
    if s.len() == 0 {
        0
    } else {
        hex_value(s.drop_last()) * 16 + digit_value(s.last())
    }
}

/// Sixteen to the power `k`.
pub open spec fn pow16(k: nat) -> nat
    decreases k,
{
    if k == 0 {
        1
    } else {
        16 * pow16((k - 1) as nat)
    }
}

/// The session id that stands in when the backend assigned none: the prefix
/// `opencode-session-`, the clock reading in nanoseconds as sixteen hex digits,
/// a dash, and the sequence number as at least eight hex digits.
pub open spec fn spec_fallback_session_id(now_nanos: u64, seq: u64) -> Seq<char> {
    "opencode-session-"@ + zero_padded_hex(now_nanos as nat, 16) + "-"@ + zero_padded_hex(
        seq as nat,
        8,
    )
}

/// The sequence number after `seq`, wrapping past the largest `u64`.
pub open spec fn next_seq(seq: u64) -> u64 {
    if seq == u64::MAX {
        0
    } else {
        (seq + 1) as u64
    }
}

pub proof fn lemma_hex_value_of_digits(v: nat)
    ensures
        hex_value(hex_digits(v)) == v,
        hex_digits(v).len() >= 1,
    decreases v,
{
    lemma_digit_roundtrip(v % 16);
    if v >= 16 {
        lemma_hex_value_of_digits(v / 16);
        let d = hex_digits(v / 16);
        assert(d.push(hex_digit(v % 16)).drop_last() =~= d);
        assert(v == (v / 16) * 16 + v % 16);
        assert(hex_value(hex_digits(v)) == hex_value(d) * 16 + digit_value(hex_digit(v % 16)));
    } else {
        assert(hex_digits(v).drop_last() =~= Seq::<char>::empty());
        assert(hex_value(hex_digits(v)) == hex_value(Seq::<char>::empty()) * 16 + digit_value(hex_digit(v)));
    }
}

pub proof fn lemma_digit_roundtrip(d: nat)
    requires
        d < 16,
    ensures
        digit_value(hex_digit(d)) == d,
{
}

pub proof fn lemma_hex_value_zeros(n: nat)
    ensures
        hex_value(zeros(n)) == 0,
    decreases n,
{
    if n > 0 {
        assert(zeros(n).drop_last() =~= zeros((n - 1) as nat));
        lemma_hex_value_zeros((n - 1) as nat);
    }
}

pub proof fn lemma_hex_value_leading_zeros(n: nat, s: Seq<char>)
    ensures
        hex_value(zeros(n) + s) == hex_value(s),
    decreases s.len(),
{
    if s.len() == 0 {
        assert(zeros(n) + s =~= zeros(n));
        lemma_hex_value_zeros(n);
    } else {
        assert((zeros(n) + s).drop_last() =~= zeros(n) + s.drop_last());
        lemma_hex_value_leading_zeros(n, s.drop_last());
    }
}

pub proof fn lemma_padded_value(v: nat, width: nat)
    ensures
        hex_value(zero_padded_hex(v, width)) == v,
        zero_padded_hex(v, width).len() >= width,
{
    lemma_hex_value_of_digits(v);
    let d = hex_digits(v);
    if d.len() < width {
        lemma_hex_value_leading_zeros((width - d.len()) as nat, d);
    }
}

pub proof fn lemma_hex_len_bound(v: nat, k: nat)
    requires
        v < pow16(k),
        k >= 1,
    ensures
        hex_digits(v).len() <= k,
    decreases v,
{
    if v >= 16 {
        assert(k >= 2) by {
            if k == 1 {
                assert(pow16(1) == 16 * pow16(0));
            }
        }
        assert(pow16(k) == 16 * pow16((k - 1) as nat));
        assert(v / 16 < pow16((k - 1) as nat));
        lemma_hex_len_bound(v / 16, (k - 1) as nat);
    }
}

pub proof fn lemma_u64_hex_len(v: u64)
    ensures
        hex_digits(v as nat).len() <= 16,
        zero_padded_hex(v as nat, 16).len() == 16,
{
    assert(pow16(16) == 0x1_0000_0000_0000_0000) by {
        reveal_with_fuel(pow16, 17);
    }
    lemma_hex_len_bound(v as nat, 16);
}

/// Distinct clock readings or sequence numbers give distinct fallback session
/// ids: the id determines both.
pub proof fn law_fallback_id_injective(now1: u64, seq1: u64, now2: u64, seq2: u64)
    requires
        spec_fallback_session_id(now1, seq1) == spec_fallback_session_id(now2, seq2),
    ensures
        now1 == now2,
        seq1 == seq2,
{
    reveal_strlit("opencode-session-");
    reveal_strlit("-");
    lemma_u64_hex_len(now1);
    lemma_u64_hex_len(now2);
    lemma_padded_value(now1 as nat, 16);
    lemma_padded_value(now2 as nat, 16);
    lemma_padded_value(seq1 as nat, 8);
    lemma_padded_value(seq2 as nat, 8);
    let t1 = spec_fallback_session_id(now1, seq1);
    let t2 = spec_fallback_session_id(now2, seq2);
    let p = "opencode-session-"@;
    assert(p.len() == 17);
    assert(t1.subrange(17, 33) =~= zero_padded_hex(now1 as nat, 16));
    assert(t2.subrange(17, 33) =~= zero_padded_hex(now2 as nat, 16));
    assert(t1.skip(34) =~= zero_padded_hex(seq1 as nat, 8));
    assert(t2.skip(34) =~= zero_padded_hex(seq2 as nat, 8));
}

/// Two fallback ids minted one after the other always differ, whatever the
/// clock read: their sequence numbers differ.
pub proof fn law_successive_fallback_ids_differ(now1: u64, now2: u64, seq: u64)
    ensures
        spec_fallback_session_id(now1, seq) != spec_fallback_session_id(now2, next_seq(seq)),
{
    if spec_fallback_session_id(now1, seq) == spec_fallback_session_id(now2, next_seq(seq)) {
        law_fallback_id_injective(now1, seq, now2, next_seq(seq));
    }
}

/// The sequence number `k` steps after `seq`, wrapping past the largest `u64`.
pub open spec fn seq_after(seq: u64, k: nat) -> u64 {
    ((seq + k) % 0x1_0000_0000_0000_0000) as u64
}

/// One more step of the counter.
pub proof fn lemma_seq_after_step(seq: u64, k: nat)
    ensures
        next_seq(seq_after(seq, k)) == seq_after(seq, k + 1),
{
    let m: int = 0x1_0000_0000_0000_0000;
    let a: int = (seq + k) % m;
    assert(0 <= a < m);
    assert((seq + k) == m * ((seq + k) / m) + a);
    assert(((seq + k + 1) % m) == (if a + 1 == m { 0 } else { a + 1 })) by (nonlinear_arith)
        requires
            0 <= a < m,
            (seq + k) == m * ((seq + k) / m) + a,
            m > 0,
            seq + k >= 0,
    {
        let q: int = (seq + k) / m;
        if a + 1 == m {
            assert(seq + k + 1 == m * (q + 1));
        } else {
            assert(seq + k + 1 == m * q + (a + 1));
        }
    }
}

/// A source of ids, counting from `seq`, has moved on to `seq_after(seq, k)`
/// after `k` ids.
pub proof fn law_counter_after_ids(seq: u64, k: nat)
    ensures
        seq_after(seq, 0) == seq,
        next_seq(seq_after(seq, k)) == seq_after(seq, k + 1),
{
    lemma_seq_after_step(seq, k);
}

/// Of the ids that one source mints, one after another, the `i`-th and the
/// `j`-th differ whatever the clock read, for any two of the first 2^64 ids:
/// the provider keeps one source for the whole process, so no two fallback ids
/// of a process coincide until its counter has gone round.
pub proof fn law_minted_ids_distinct(seq: u64, i: nat, j: nat, now_i: u64, now_j: u64)
    requires
        i < j < 0x1_0000_0000_0000_0000,
    ensures
        spec_fallback_session_id(now_i, seq_after(seq, i)) != spec_fallback_session_id(
            now_j,
            seq_after(seq, j),
        ),
{
    let m: int = 0x1_0000_0000_0000_0000;
    assert(seq_after(seq, i) != seq_after(seq, j)) by (nonlinear_arith)
        requires
            i < j < m,
            0 <= seq < m,
            m > 0,
            seq_after(seq, i) == (seq + i) % m,
            seq_after(seq, j) == (seq + j) % m,
    {
        if (seq + i) % m == (seq + j) % m {
            let qi: int = (seq + i) / m;
            let qj: int = (seq + j) / m;
            assert(seq + i == m * qi + (seq + i) % m);
            assert(seq + j == m * qj + (seq + j) % m);
            assert(j - i == m * (qj - qi));
            if qj - qi >= 1 {
                assert(m * (qj - qi) >= m);
            } else {
                assert(m * (qj - qi) <= 0);
            }
        }
    }
    if spec_fallback_session_id(now_i, seq_after(seq, i)) == spec_fallback_session_id(
        now_j,
        seq_after(seq, j),
    ) {
        law_fallback_id_injective(now_i, seq_after(seq, i), now_j, seq_after(seq, j));
    }
}

/// Appends `c` to `s` (`String::push`).
#[verifier::external_body]
fn push_char(s: &mut String, c: char)
    ensures
        final(s)@ == old(s)@.push(c),
{
    s.push(c)
}

fn hex_char(d: u64) -> (c: char)
    requires
        d < 16,
    ensures
        c == hex_digit(d as nat),
{
    if d == 0 { '0' }
    else if d == 1 { '1' }
    else if d == 2 { '2' }
    else if d == 3 { '3' }
    else if d == 4 { '4' }
    else if d == 5 { '5' }
    else if d == 6 { '6' }
    else if d == 7 { '7' }
    else if d == 8 { '8' }
    else if d == 9 { '9' }
    else if d == 10 { 'a' }
    else if d == 11 { 'b' }
    else if d == 12 { 'c' }
    else if d == 13 { 'd' }
    else if d == 14 { 'e' }
    else { 'f' }
}

fn hex_len(v: u64) -> (r: usize)
    ensures
        r == hex_digits(v as nat).len(),
    decreases v,
{
    proof {
        lemma_u64_hex_len(v);
    }
    if v < 16 {
        1
    } else {
        let n: usize = hex_len(v / 16);
        n + 1
    }
}

fn push_hex_digits(out: &mut String, v: u64)
    ensures
        final(out)@ == old(out)@ + hex_digits(v as nat),
    decreases v,
{
    if v >= 16 {
        push_hex_digits(out, v / 16);
    }
    push_char(out, hex_char(v % 16));
    proof {
        if v >= 16 {
            assert(old(out)@ + hex_digits(v as nat) =~= (old(out)@ + hex_digits((v / 16) as nat)).push(
                hex_digit((v % 16) as nat),
            ));
        } else {
            assert(old(out)@ + hex_digits(v as nat) =~= old(out)@.push(hex_digit(v as nat)));
        }
    }
}

/// Appends the hexadecimal text of `v`, zero-padded to `width` digits.
fn push_padded_hex(out: &mut String, v: u64, width: usize)
    ensures
        final(out)@ == old(out)@ + zero_padded_hex(v as nat, width as nat),
{
    let n: usize = hex_len(v);
    let mut pad: usize = 0;
    let ghost start = out@;
    if n < width {
        while pad < width - n
            invariant
                n < width,
                pad <= width - n,
                out@ == start + zeros(pad as nat),
            decreases width - n - pad,
        {
            push_char(out, '0');
            proof {
                assert(start + zeros((pad + 1) as nat) =~= (start + zeros(pad as nat)).push('0'));
            }
            pad = pad + 1;
        }
    }
    let ghost mid = out@;
    push_hex_digits(out, v);
    proof {
        if n < width {
            assert(out@ =~= start + (zeros((width - n) as nat) + hex_digits(v as nat)));
        } else {
            assert(out@ =~= start + hex_digits(v as nat));
        }
    }
}

/// The fallback session id for the clock reading `now_nanos` and the sequence
/// number `seq`.
pub fn fallback_session_id(now_nanos: u64, seq: u64) -> (r: String)
    ensures
        r@ == spec_fallback_session_id(now_nanos, seq),
{
    let mut s = "opencode-session-".to_string();
    push_padded_hex(&mut s, now_nanos, 16);
    s.append("-");
    push_padded_hex(&mut s, seq, 8);
    proof {
        assert(s@ =~= spec_fallback_session_id(now_nanos, seq));
    }
    s
}

// ---------------------------------------------------------------------------
// The clock
// ---------------------------------------------------------------------------

#[verifier::external_type_specification]
#[verifier::external_body]
pub struct ExSystemTime(SystemTime);

#[verifier::external_type_specification]
#[verifier::external_body]
pub struct ExSystemTimeError(SystemTimeError);

/// The current system time (`SystemTime::now`); nothing is known of it.
#[verifier::external_body]
fn system_time_now() -> SystemTime {
    SystemTime::now()
}

/// The time elapsed from the Unix epoch to `t` (`SystemTime::duration_since`
/// with `UNIX_EPOCH`); an error where `t` lies before the epoch. What it
/// measures depends on the clock and is not stated.
#[verifier::external_body]
fn since_unix_epoch(t: &SystemTime) -> Result<Duration, SystemTimeError> {
    t.duration_since(std::time::UNIX_EPOCH)
}

/// The whole nanoseconds of `d` (`Duration::as_nanos`); the value is not stated.
#[verifier::external_body]
fn duration_nanos(d: &Duration) -> u128 {
    d.as_nanos()
}

/// The clock reading kept in a fallback id: the nanoseconds elapsed since the
/// Unix epoch truncated to their low 64 bits, or zero where the clock reads a
/// time before the epoch (`None`).
pub open spec fn spec_clock_reading(elapsed_nanos: Option<u128>) -> u64 {
    match elapsed_nanos {
        Some(n) => (n % 0x1_0000_0000_0000_0000) as u64,
        None => 0,
    }
}

/// The clock reading for `elapsed_nanos`, the nanoseconds elapsed since the
/// Unix epoch (`None` before the epoch).
pub fn clock_reading(elapsed_nanos: Option<u128>) -> (r: u64)
    ensures
        r == spec_clock_reading(elapsed_nanos),
{
    match elapsed_nanos {
        Some(n) => {
            let low: u64 = #[verifier::truncate] (n as u64);
            assert(low as u128 == n % 0x1_0000_0000_0000_0000) by (bit_vector)
                requires
                    low == n as u64,
            ;
            low
        },
        None => 0,
    }
}

/// Nanoseconds since the Unix epoch, truncated to 64 bits; zero where the
/// clock reads a time before the epoch.
fn clock_nanos() -> u64 {
    let now = system_time_now();
    let elapsed: Option<u128> = match since_unix_epoch(&now) {
        Ok(d) => Some(duration_nanos(&d)),
        Err(_) => None,
    };
    clock_reading(elapsed)
}

// ---------------------------------------------------------------------------
// Minting
// ---------------------------------------------------------------------------

/// The source of fallback session ids: each id takes the next number of a
/// counter that starts at zero and wraps past the largest `u64`.
pub struct SessionIdMinter {
    seq: u64,
}

impl SessionIdMinter {
    /// The sequence number that the next id takes.
    pub closed spec fn next(&self) -> u64 {
        self.seq
    }

    /// A source whose first id takes sequence number zero.
    pub fn new() -> (r: SessionIdMinter)
        ensures
            r.next() == 0,
    {
        SessionIdMinter { seq: 0 }
    }
}

/// A fresh fallback session id: the current clock reading and the next
/// sequence number, formatted as [`fallback_session_id`]; the counter moves on
/// by one.
pub fn new_v4_like(ids: &mut SessionIdMinter) -> (r: String)
    ensures
        final(ids).next() == next_seq(old(ids).next()),
        exists|now: u64| r@ == #[trigger] spec_fallback_session_id(now, old(ids).next()),
{
    let now: u64 = clock_nanos();
    let seq: u64 = ids.seq;
    ids.seq = if seq == u64::MAX { 0 } else { seq + 1 };
    let id = fallback_session_id(now, seq);
    assert(id@ == spec_fallback_session_id(now, seq));
    id
}

} // verus!
