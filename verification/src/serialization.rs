//! Storage encodings: sortable timestamp bytes and the words and texts that
//! stored rows hold.

use crate::model::{in_clock_range, nanos_per_second, signed_nanos, AssignmentSource, Metadata, UnixTime};
use crate::operations::{
    ConnectionStatus, DiscoveryStatus, GlobalMonitoringState, MonitoringPolicy, ReconciliationState,
};
use crate::sorted_map::{keys_ascending, pairs_view, TextMap};
use crate::store::{is_malformed, is_unsupported, StoreError};
use crate::text::{decimal_text, push_decimal, push_str, str_eq};
use vstd::prelude::*;

verus! {

/// The number of bytes of an encoded timestamp.
pub const TIMESTAMP_LENGTH: usize = 13;

/// `256` raised to the power `n`.
pub open spec fn pow256(n: nat) -> nat
    decreases n,
{
    if n == 0 {
        1
    } else {
        256 * pow256((n - 1) as nat)
    }
}

/// The `n` low-order bytes of `x`, most significant first.
pub open spec fn be_bytes(x: nat, n: nat) -> Seq<u8>
    decreases n,
{
    if n == 0 {
        Seq::empty()
    } else {
        be_bytes(x / 256, (n - 1) as nat).push((x % 256) as u8)
    }
}

/// The number that bytes spell, most significant first.
pub open spec fn be_value(s: Seq<u8>) -> nat
    decreases s.len(),
{
    if s.len() == 0 {
        0
    } else {
        (be_value(s.drop_last()) * 256 + s.last()) as nat
    }
}

/// Byte-wise lexicographic order, a proper prefix sorting first: the order in
/// which a database compares binary values.
pub open spec fn bytes_lt(a: Seq<u8>, b: Seq<u8>) -> bool
    decreases a.len(),
{
    if a.len() == 0 {
        b.len() > 0
    } else if b.len() == 0 {
        false
    } else if a[0] < b[0] {
        true
    } else if a[0] == b[0] {
        bytes_lt(a.drop_first(), b.drop_first())
    } else {
        false
    }
}

/// The distance of a signed nanosecond count from zero.
pub open spec fn magnitude(nanos: int) -> nat {
    if nanos < 0 {
        (-nanos) as nat
    } else {
        nanos as nat
    }
}

/// The largest `u64`.
pub open spec fn all_ones_64() -> nat {
    0xffff_ffff_ffff_ffff
}

/// The largest `u32`.
pub open spec fn all_ones_32() -> nat {
    0xffff_ffff
}

/// The stored bytes of a time given as signed nanoseconds from the epoch: a
/// marker byte, `0` before the epoch and `1` from it on, then the whole
/// seconds in eight bytes and the remaining nanoseconds in four, both most
/// significant first and, before the epoch, with every bit flipped.
pub open spec fn timestamp_bytes(nanos: int) -> Seq<u8> {
    let seconds = magnitude(nanos) / nanos_per_second() as nat;
    let sub = magnitude(nanos) % nanos_per_second() as nat;
    if nanos < 0 {
        seq![0u8] + be_bytes((all_ones_64() - seconds) as nat, 8) + be_bytes(
            (all_ones_32() - sub) as nat,
            4,
        )
    } else {
        seq![1u8] + be_bytes(seconds, 8) + be_bytes(sub, 4)
    }
}

/// The whole seconds that 13 stored timestamp bytes hold.
pub open spec fn stored_seconds(b: Seq<u8>) -> nat {
    if b[0] == 0 {
        (all_ones_64() - be_value(b.subrange(1, 9))) as nat
    } else {
        be_value(b.subrange(1, 9))
    }
}

/// The remaining nanoseconds that 13 stored timestamp bytes hold.
pub open spec fn stored_subsecond(b: Seq<u8>) -> nat {
    if b[0] == 0 {
        (all_ones_32() - be_value(b.subrange(9, 13))) as nat
    } else {
        be_value(b.subrange(9, 13))
    }
}

/// The time, as signed nanoseconds from the epoch, that stored bytes hold,
/// if they hold one: thirteen bytes, a known marker, fewer nanoseconds than a
/// second, and a time within the clock's range.
pub open spec fn timestamp_from_bytes(b: Seq<u8>) -> Option<int> {
    if b.len() != 13 || (b[0] != 0 && b[0] != 1) || stored_subsecond(b) >= 1_000_000_000 {
        None
    } else {
        let v = signed_nanos(
            b[0] == 0,
            stored_seconds(b) as u64,
            stored_subsecond(b) as u32,
        );
        if in_clock_range(v) {
            Some(v)
        } else {
            None
        }
    }
}

/// The detail of a timestamp of the wrong length.
pub open spec fn wrong_length_detail(len: nat) -> Seq<char> {
    "expected 13 bytes, found "@ + decimal_text(len)
}

/// The value reported for an unknown timestamp marker.
pub open spec fn unknown_marker_value(marker: u8) -> Seq<char> {
    "timestamp marker "@ + decimal_text(marker as nat)
}

/// The detail of a timestamp whose nanoseconds make a second or more.
pub open spec fn nanoseconds_detail(nanos: nat) -> Seq<char> {
    "nanoseconds out of range: "@ + decimal_text(nanos)
}

/// The detail of a timestamp outside the clock's range.
pub open spec fn out_of_range_detail() -> Seq<char> {
    "timestamp is outside this platform's SystemTime range"@
}

/// Whether `e` is the error that decoding `bytes`, stored in `field`, reports.
pub open spec fn timestamp_error(e: StoreError, bytes: Seq<u8>, field: Seq<char>) -> bool {
    if bytes.len() != 13 {
        is_malformed(e, field, wrong_length_detail(bytes.len()))
    } else if bytes[0] != 0 && bytes[0] != 1 {
        is_unsupported(e, field, unknown_marker_value(bytes[0]))
    } else if stored_subsecond(bytes) >= 1_000_000_000 {
        is_malformed(e, field, nanoseconds_detail(stored_subsecond(bytes)))
    } else {
        is_malformed(e, field, out_of_range_detail())
    }
}

proof fn lemma_pow256_values()
    ensures
        pow256(4) == 0x1_0000_0000,
        pow256(8) == 0x1_0000_0000_0000_0000,
{
    reveal_with_fuel(pow256, 9);
}

proof fn lemma_pow256_monotone(a: nat, b: nat)
    requires
        a <= b,
    ensures
        pow256(a) <= pow256(b),
        pow256(a) > 0,
    decreases b,
{
    if b > a {
        lemma_pow256_monotone(a, (b - 1) as nat);
    } else if a > 0 {
        lemma_pow256_monotone((a - 1) as nat, (a - 1) as nat);
    }
}

proof fn lemma_be_bytes_len(x: nat, n: nat)
    ensures
        be_bytes(x, n).len() == n,
    decreases n,
{
    if n > 0 {
        lemma_be_bytes_len(x / 256, (n - 1) as nat);
    }
}

proof fn lemma_be_value_of_bytes(x: nat, n: nat)
    requires
        x < pow256(n),
    ensures
        be_value(be_bytes(x, n)) == x,
    decreases n,
{
    if n > 0 {
        assert(x / 256 < pow256((n - 1) as nat));
        lemma_be_value_of_bytes(x / 256, (n - 1) as nat);
        let s = be_bytes(x, n);
        assert(s.drop_last() == be_bytes(x / 256, (n - 1) as nat));
    }
}

proof fn lemma_be_value_bound(s: Seq<u8>)
    ensures
        be_value(s) < pow256(s.len()),
    decreases s.len(),
{
    if s.len() > 0 {
        lemma_be_value_bound(s.drop_last());
    }
}

proof fn lemma_be_value_single(x: u8)
    ensures
        be_value(seq![x]) == x,
{
    assert(seq![x].drop_last() =~= Seq::<u8>::empty());
    assert(be_value(Seq::<u8>::empty()) == 0);
}

proof fn lemma_split_nanos(m: nat)
    ensures
        m == (m / 1_000_000_000) * 1_000_000_000 + m % 1_000_000_000,
        m % 1_000_000_000 < 1_000_000_000,
{
    vstd::arithmetic::div_mod::lemma_fundamental_div_mod(m as int, 1_000_000_000);
    vstd::arithmetic::div_mod::lemma_mod_pos_bound(m as int, 1_000_000_000);
}

proof fn lemma_be_value_concat(a: Seq<u8>, b: Seq<u8>)
    ensures
        be_value(a + b) == be_value(a) * pow256(b.len()) + be_value(b),
    decreases b.len(),
{
    if b.len() == 0 {
        assert(a + b =~= a);
        assert(be_value(b) == 0);
        assert(pow256(0) == 1);
    } else {
        let rest = b.drop_last();
        assert((a + b).drop_last() =~= a + rest);
        assert((a + b).last() == b.last());
        lemma_be_value_concat(a, rest);
        let va = be_value(a);
        let vr = be_value(rest);
        let p = pow256(rest.len());
        assert(pow256(b.len()) == 256 * p);
        assert(be_value(a + b) == be_value(a + rest) * 256 + b.last());
        assert(be_value(b) == vr * 256 + b.last());
        assert((va * p + vr) * 256 + b.last() == va * (256 * p) + (vr * 256 + b.last()))
            by (nonlinear_arith);
    }
}

proof fn lemma_scaled_gap(lo: nat, hi: nat, p: nat, r: nat)
    requires
        lo < hi,
        r < p,
    ensures
        lo * p + r < hi * p,
{
    assert((lo + 1) * p <= hi * p) by (nonlinear_arith)
        requires
            lo + 1 <= hi,
    ;
    assert((lo + 1) * p == lo * p + p) by (nonlinear_arith);
}

/// On byte strings of one length, the lexicographic order is the order of the
/// numbers they spell.
pub proof fn lemma_bytes_lt_is_value_order(a: Seq<u8>, b: Seq<u8>)
    requires
        a.len() == b.len(),
    ensures
        bytes_lt(a, b) <==> be_value(a) < be_value(b),
    decreases a.len(),
{
    if a.len() > 0 {
        let ra = a.drop_first();
        let rb = b.drop_first();
        assert(a =~= seq![a[0]] + ra);
        assert(b =~= seq![b[0]] + rb);
        lemma_be_value_concat(seq![a[0]], ra);
        lemma_be_value_concat(seq![b[0]], rb);
        lemma_be_value_single(a[0]);
        lemma_be_value_single(b[0]);
        lemma_be_value_bound(ra);
        lemma_be_value_bound(rb);
        let p = pow256(ra.len());
        lemma_bytes_lt_is_value_order(ra, rb);
        if a[0] < b[0] {
            lemma_scaled_gap(a[0] as nat, b[0] as nat, p, be_value(ra));
        } else if a[0] > b[0] {
            lemma_scaled_gap(b[0] as nat, a[0] as nat, p, be_value(rb));
        }
    }
}

/// The number that the stored bytes of a time spell.
pub open spec fn timestamp_key(nanos: int) -> int {
    let seconds = magnitude(nanos) / nanos_per_second() as nat;
    let sub = magnitude(nanos) % nanos_per_second() as nat;
    if nanos < 0 {
        (all_ones_64() - seconds) * 0x1_0000_0000 + (all_ones_32() - sub)
    } else {
        (0x1_0000_0000_0000_0000_0000_0000 + seconds * 0x1_0000_0000 + sub) as int
    }
}

proof fn lemma_timestamp_bytes_value(nanos: int)
    requires
        in_clock_range(nanos),
    ensures
        timestamp_bytes(nanos).len() == 13,
        be_value(timestamp_bytes(nanos)) == timestamp_key(nanos),
{
    let seconds = magnitude(nanos) / nanos_per_second() as nat;
    let sub = magnitude(nanos) % nanos_per_second() as nat;
    lemma_pow256_values();
    lemma_split_nanos(magnitude(nanos));
    assert(seconds <= 0x8000_0000_0000_0000);
    let m: u8 = if nanos < 0 {
        0
    } else {
        1
    };
    let s: nat = if nanos < 0 {
        (all_ones_64() - seconds) as nat
    } else {
        seconds
    };
    let n: nat = if nanos < 0 {
        (all_ones_32() - sub) as nat
    } else {
        sub
    };
    lemma_be_bytes_len(s, 8);
    lemma_be_bytes_len(n, 4);
    lemma_be_value_of_bytes(s, 8);
    lemma_be_value_of_bytes(n, 4);
    assert(timestamp_bytes(nanos) == seq![m] + be_bytes(s, 8) + be_bytes(n, 4));
    lemma_be_value_concat(seq![m] + be_bytes(s, 8), be_bytes(n, 4));
    lemma_be_value_concat(seq![m], be_bytes(s, 8));
    lemma_be_value_single(m);
}

proof fn lemma_timestamp_key_monotone(a: int, b: int)
    requires
        in_clock_range(a),
        in_clock_range(b),
        a < b,
    ensures
        timestamp_key(a) < timestamp_key(b),
{
    let ma = magnitude(a);
    let mb = magnitude(b);
    let sa = ma / nanos_per_second() as nat;
    let sb = mb / nanos_per_second() as nat;
    let na = ma % nanos_per_second() as nat;
    let nb = mb % nanos_per_second() as nat;
    lemma_split_nanos(ma);
    lemma_split_nanos(mb);
    assert(sa <= 0x8000_0000_0000_0000);
    assert(sb <= 0x8000_0000_0000_0000);
    if a < 0 && b < 0 {
        assert(sa > sb || (sa == sb && na > nb));
    } else if 0 <= a {
        assert(sa < sb || (sa == sb && na < nb));
    }
}

/// Encoding keeps chronological order: the stored bytes of one time sort
/// before those of another exactly when the first time is earlier. This is
/// what makes stored timestamps sortable by the database.
pub proof fn law_timestamp_order(a: int, b: int)
    requires
        in_clock_range(a),
        in_clock_range(b),
    ensures
        bytes_lt(timestamp_bytes(a), timestamp_bytes(b)) <==> a < b,
{
    lemma_timestamp_bytes_value(a);
    lemma_timestamp_bytes_value(b);
    lemma_bytes_lt_is_value_order(timestamp_bytes(a), timestamp_bytes(b));
    if a < b {
        lemma_timestamp_key_monotone(a, b);
    } else if b < a {
        lemma_timestamp_key_monotone(b, a);
    }
}

/// Decoding gives back what encoding stored: the stored bytes of a time hold
/// exactly that time.
pub proof fn law_timestamp_round_trip(nanos: int)
    requires
        in_clock_range(nanos),
    ensures
        timestamp_from_bytes(timestamp_bytes(nanos)) == Some(nanos),
{
    let seconds = magnitude(nanos) / nanos_per_second() as nat;
    let sub = magnitude(nanos) % nanos_per_second() as nat;
    lemma_pow256_values();
    lemma_split_nanos(magnitude(nanos));
    assert(seconds <= 0x8000_0000_0000_0000);
    let m: u8 = if nanos < 0 {
        0
    } else {
        1
    };
    let s: nat = if nanos < 0 {
        (all_ones_64() - seconds) as nat
    } else {
        seconds
    };
    let n: nat = if nanos < 0 {
        (all_ones_32() - sub) as nat
    } else {
        sub
    };
    lemma_be_bytes_len(s, 8);
    lemma_be_bytes_len(n, 4);
    lemma_be_value_of_bytes(s, 8);
    lemma_be_value_of_bytes(n, 4);
    let b = timestamp_bytes(nanos);
    assert(b == seq![m] + be_bytes(s, 8) + be_bytes(n, 4));
    assert(b.subrange(1, 9) =~= be_bytes(s, 8));
    assert(b.subrange(9, 13) =~= be_bytes(n, 4));
    assert(stored_seconds(b) == seconds);
    assert(stored_subsecond(b) == sub);
    if nanos < 0 {
        assert(signed_nanos(true, seconds as u64, sub as u32) == nanos);
    } else {
        assert(signed_nanos(false, seconds as u64, sub as u32) == nanos);
    }
}

/// Appends the `n` low-order bytes of `x`, most significant first.
fn push_be_bytes(out: &mut Vec<u8>, x: u64, n: usize)
    ensures
        final(out)@ == old(out)@ + be_bytes(x as nat, n as nat),
    decreases n,
{
    if n == 0 {
        assert(old(out)@ + be_bytes(x as nat, 0) =~= old(out)@);
    } else {
        push_be_bytes(out, x / 256, n - 1);
        out.push((x % 256) as u8);
        assert(final(out)@ =~= old(out)@ + be_bytes(x as nat, n as nat));
    }
}

/// Reads the number that `b[from..to]` spells, most significant first.
fn read_be(b: &[u8], from: usize, to: usize) -> (r: u64)
    requires
        from <= to <= b@.len(),
        to - from <= 8,
    ensures
        r == be_value(b@.subrange(from as int, to as int)),
{
    let mut acc: u64 = 0;
    let mut i = from;
    assert(b@.subrange(from as int, from as int) =~= Seq::<u8>::empty());
    while i < to
        invariant
            from <= i <= to <= b@.len(),
            to - from <= 8,
            acc == be_value(b@.subrange(from as int, i as int)),
        decreases to - i,
    {
        proof {
            lemma_be_value_bound(b@.subrange(from as int, i as int));
            lemma_pow256_monotone((i - from) as nat, 7);
            reveal_with_fuel(pow256, 8);
            assert(b@.subrange(from as int, i + 1).drop_last() =~= b@.subrange(
                from as int,
                i as int,
            ));
        }
        acc = acc * 256 + b[i] as u64;
        i = i + 1;
    }
    acc
}

/// Encodes a time into 13 bytes whose byte-wise order is chronological.
pub fn encode_timestamp(timestamp: UnixTime) -> (r: Vec<u8>)
    ensures
        r@ == timestamp_bytes(timestamp@),
        in_clock_range(timestamp@),
{
    let before = timestamp.is_before_epoch();
    let seconds = timestamp.whole_seconds();
    let sub = timestamp.subsecond_nanos();
    let mut out: Vec<u8> = Vec::new();
    if before {
        out.push(0u8);
        push_be_bytes(&mut out, u64::MAX - seconds, 8);
        push_be_bytes(&mut out, (u32::MAX - sub) as u64, 4);
    } else {
        out.push(1u8);
        push_be_bytes(&mut out, seconds, 8);
        push_be_bytes(&mut out, sub as u64, 4);
    }
    assert(out@ =~= timestamp_bytes(timestamp@));
    out
}

/// Decodes stored timestamp bytes, rejecting malformed or unrepresentable
/// values; `field` names the stored value in errors.
pub fn decode_timestamp(bytes: &[u8], field: &str) -> (r: Result<UnixTime, StoreError>)
    ensures
        match r {
            Ok(t) => timestamp_from_bytes(bytes@) == Some(t@),
            Err(e) => timestamp_from_bytes(bytes@) is None && timestamp_error(e, bytes@, field@),
        },
{
    if bytes.len() != TIMESTAMP_LENGTH {
        let mut detail = String::new();
        push_str(&mut detail, "expected 13 bytes, found ");
        push_decimal(&mut detail, bytes.len() as u64);
        return Err(StoreError::MalformedStoredData { field: field.to_owned(), detail });
    }
    let marker = bytes[0];
    if marker != 0 && marker != 1 {
        let mut value = String::new();
        push_str(&mut value, "timestamp marker ");
        push_decimal(&mut value, marker as u64);
        return Err(StoreError::UnsupportedStoredData { field: field.to_owned(), value });
    }
    let stored_s = read_be(bytes, 1, 9);
    let stored_n = read_be(bytes, 9, 13);
    proof {
        lemma_be_value_bound(bytes@.subrange(9, 13));
        lemma_pow256_values();
    }
    let seconds: u64 = if marker == 0 {
        u64::MAX - stored_s
    } else {
        stored_s
    };
    let nanoseconds: u64 = if marker == 0 {
        0xffff_ffffu64 - stored_n
    } else {
        stored_n
    };
    if nanoseconds >= 1_000_000_000 {
        let mut detail = String::new();
        push_str(&mut detail, "nanoseconds out of range: ");
        push_decimal(&mut detail, nanoseconds);
        return Err(StoreError::MalformedStoredData { field: field.to_owned(), detail });
    }
    let decoded = if marker == 0 {
        UnixTime::before_epoch(seconds, nanoseconds as u32)
    } else {
        UnixTime::after_epoch(seconds, nanoseconds as u32)
    };
    match decoded {
        Some(t) => Ok(t),
        None => Err(
            StoreError::MalformedStoredData {
                field: field.to_owned(),
                detail: "timestamp is outside this platform's SystemTime range".to_owned(),
            },
        ),
    }
}

/// The stored word of a reconciliation state.
pub open spec fn state_word(state: ReconciliationState) -> Seq<char> {
    match state {
        ReconciliationState::Idle => "idle"@,
        ReconciliationState::Running => "running"@,
        ReconciliationState::Succeeded => "succeeded"@,
        ReconciliationState::Failed => "failed"@,
        ReconciliationState::Paused => "paused"@,
    }
}

/// The reconciliation state a stored word names; an unknown word reads as
/// paused.
pub open spec fn state_from_word(word: Seq<char>) -> ReconciliationState {
    if word == "idle"@ {
        ReconciliationState::Idle
    } else if word == "running"@ {
        ReconciliationState::Running
    } else if word == "succeeded"@ {
        ReconciliationState::Succeeded
    } else if word == "failed"@ {
        ReconciliationState::Failed
    } else {
        ReconciliationState::Paused
    }
}

/// Returns the stored word of a reconciliation state.
pub fn encode_state(value: ReconciliationState) -> (r: &'static str)
    ensures
        r@ == state_word(value),
{
    match value {
        ReconciliationState::Idle => "idle",
        ReconciliationState::Running => "running",
        ReconciliationState::Succeeded => "succeeded",
        ReconciliationState::Failed => "failed",
        ReconciliationState::Paused => "paused",
    }
}

/// Reads a stored reconciliation state word.
pub fn decode_state(value: &str) -> (r: ReconciliationState)
    ensures
        r == state_from_word(value@),
{
    if str_eq(value, "idle") {
        ReconciliationState::Idle
    } else if str_eq(value, "running") {
        ReconciliationState::Running
    } else if str_eq(value, "succeeded") {
        ReconciliationState::Succeeded
    } else if str_eq(value, "failed") {
        ReconciliationState::Failed
    } else {
        ReconciliationState::Paused
    }
}

/// A stored reconciliation state reads back as the state that was stored.
pub proof fn law_state_word_round_trip(state: ReconciliationState)
    ensures
        state_from_word(state_word(state)) == state,
{
    reveal_strlit("idle");
    reveal_strlit("running");
    reveal_strlit("succeeded");
    reveal_strlit("failed");
    reveal_strlit("paused");
    assert("idle"@.len() == 4);
    assert("running"@.len() == 7);
    assert("succeeded"@.len() == 9);
    assert("failed"@.len() == 6);
    assert("paused"@.len() == 6);
    assert("paused"@[0] != "failed"@[0]);
}

/// The stored word of a connection status.
pub open spec fn connection_status_word(status: ConnectionStatus) -> Seq<char> {
    match status {
        ConnectionStatus::Enabled => "enabled"@,
        ConnectionStatus::Paused => "paused"@,
        ConnectionStatus::Disconnected => "disconnected"@,
    }
}

/// The connection status a stored word names, if it names one.
pub open spec fn connection_status_from_word(word: Seq<char>) -> Option<ConnectionStatus> {
    if word == "enabled"@ {
        Some(ConnectionStatus::Enabled)
    } else if word == "paused"@ {
        Some(ConnectionStatus::Paused)
    } else if word == "disconnected"@ {
        Some(ConnectionStatus::Disconnected)
    } else {
        None
    }
}

/// Returns the stored word of a connection status.
pub fn connection_status(status: ConnectionStatus) -> (r: &'static str)
    ensures
        r@ == connection_status_word(status),
{
    match status {
        ConnectionStatus::Enabled => "enabled",
        ConnectionStatus::Paused => "paused",
        ConnectionStatus::Disconnected => "disconnected",
    }
}

/// Reads a stored connection status word.
pub fn decode_connection_status(value: &str) -> (r: Option<ConnectionStatus>)
    ensures
        r == connection_status_from_word(value@),
{
    if str_eq(value, "enabled") {
        Some(ConnectionStatus::Enabled)
    } else if str_eq(value, "paused") {
        Some(ConnectionStatus::Paused)
    } else if str_eq(value, "disconnected") {
        Some(ConnectionStatus::Disconnected)
    } else {
        None
    }
}

/// The stored word of a monitoring policy.
pub open spec fn policy_word(policy: MonitoringPolicy) -> Seq<char> {
    match policy {
        MonitoringPolicy::Always => "always"@,
        MonitoringPolicy::Paused => "paused"@,
    }
}

/// The monitoring policy a stored word names, if it names one.
pub open spec fn policy_from_word(word: Seq<char>) -> Option<MonitoringPolicy> {
    if word == "always"@ {
        Some(MonitoringPolicy::Always)
    } else if word == "paused"@ {
        Some(MonitoringPolicy::Paused)
    } else {
        None
    }
}

/// Returns the stored policy word that goes with a connection status: only
/// an enabled connection is always monitored.
pub fn policy_for(status: ConnectionStatus) -> (r: &'static str)
    ensures
        r@ == policy_word(crate::operations::policy_of(status)),
{
    match status {
        ConnectionStatus::Enabled => "always",
        ConnectionStatus::Paused | ConnectionStatus::Disconnected => "paused",
    }
}

/// Returns the stored word of a monitoring policy.
pub fn encode_policy(policy: MonitoringPolicy) -> (r: &'static str)
    ensures
        r@ == policy_word(policy),
{
    match policy {
        MonitoringPolicy::Always => "always",
        MonitoringPolicy::Paused => "paused",
    }
}

/// Reads a stored monitoring policy word.
pub fn decode_policy(value: &str) -> (r: Option<MonitoringPolicy>)
    ensures
        r == policy_from_word(value@),
{
    if str_eq(value, "always") {
        Some(MonitoringPolicy::Always)
    } else if str_eq(value, "paused") {
        Some(MonitoringPolicy::Paused)
    } else {
        None
    }
}

/// The stored word of a discovery status.
pub open spec fn discovery_status_word(status: DiscoveryStatus) -> Seq<char> {
    match status {
        DiscoveryStatus::AwaitingDecision => "awaiting"@,
        DiscoveryStatus::Declined => "declined"@,
        DiscoveryStatus::Connected => "connected"@,
    }
}

/// The discovery status a stored word names, if it names one.
pub open spec fn discovery_status_from_word(word: Seq<char>) -> Option<DiscoveryStatus> {
    if word == "awaiting"@ {
        Some(DiscoveryStatus::AwaitingDecision)
    } else if word == "declined"@ {
        Some(DiscoveryStatus::Declined)
    } else if word == "connected"@ {
        Some(DiscoveryStatus::Connected)
    } else {
        None
    }
}

/// Returns the stored word of a discovery status.
pub fn discovery_status(status: DiscoveryStatus) -> (r: &'static str)
    ensures
        r@ == discovery_status_word(status),
{
    match status {
        DiscoveryStatus::AwaitingDecision => "awaiting",
        DiscoveryStatus::Declined => "declined",
        DiscoveryStatus::Connected => "connected",
    }
}

/// Reads a stored discovery status word.
pub fn decode_discovery_status(value: &str) -> (r: Option<DiscoveryStatus>)
    ensures
        r == discovery_status_from_word(value@),
{
    if str_eq(value, "awaiting") {
        Some(DiscoveryStatus::AwaitingDecision)
    } else if str_eq(value, "declined") {
        Some(DiscoveryStatus::Declined)
    } else if str_eq(value, "connected") {
        Some(DiscoveryStatus::Connected)
    } else {
        None
    }
}

/// The stored word of global monitoring.
pub open spec fn monitoring_word(state: GlobalMonitoringState) -> Seq<char> {
    match state {
        GlobalMonitoringState::Enabled => "enabled"@,
        GlobalMonitoringState::Paused => "paused"@,
    }
}

/// Returns the stored word of global monitoring.
pub fn encode_monitoring(state: GlobalMonitoringState) -> (r: &'static str)
    ensures
        r@ == monitoring_word(state),
{
    match state {
        GlobalMonitoringState::Enabled => "enabled",
        GlobalMonitoringState::Paused => "paused",
    }
}

/// Reads the stored word of global monitoring: only `enabled` enables it.
pub fn decode_monitoring(value: &str) -> (r: GlobalMonitoringState)
    ensures
        r == (if value@ == "enabled"@ {
            GlobalMonitoringState::Enabled
        } else {
            GlobalMonitoringState::Paused
        }),
{
    if str_eq(value, "enabled") {
        GlobalMonitoringState::Enabled
    } else {
        GlobalMonitoringState::Paused
    }
}

/// Every stored status word reads back as the status that was stored.
pub proof fn law_status_words_round_trip(
    connection: ConnectionStatus,
    policy: MonitoringPolicy,
    discovery: DiscoveryStatus,
)
    ensures
        connection_status_from_word(connection_status_word(connection)) == Some(connection),
        policy_from_word(policy_word(policy)) == Some(policy),
        discovery_status_from_word(discovery_status_word(discovery)) == Some(discovery),
{
    reveal_strlit("enabled");
    reveal_strlit("paused");
    reveal_strlit("disconnected");
    reveal_strlit("always");
    reveal_strlit("awaiting");
    reveal_strlit("declined");
    reveal_strlit("connected");
    assert("enabled"@.len() == 7);
    assert("paused"@.len() == 6);
    assert("disconnected"@.len() == 12);
    assert("always"@.len() == 6);
    assert("always"@[0] != "paused"@[0]);
    assert("awaiting"@.len() == 8);
    assert("declined"@.len() == 8);
    assert("connected"@.len() == 9);
    assert("awaiting"@[0] != "declined"@[0]);
}

/// The stored word of an assignment source.
pub open spec fn assignment_source_word(source: AssignmentSource) -> Seq<char> {
    match source {
        AssignmentSource::Automatic => "automatic"@,
        AssignmentSource::User => "user"@,
        AssignmentSource::Imported => "imported"@,
        AssignmentSource::System => "system"@,
    }
}

/// The assignment source a stored word names, if it names one.
pub open spec fn assignment_source_from_word(word: Seq<char>) -> Option<AssignmentSource> {
    if word == "automatic"@ {
        Some(AssignmentSource::Automatic)
    } else if word == "user"@ {
        Some(AssignmentSource::User)
    } else if word == "imported"@ {
        Some(AssignmentSource::Imported)
    } else if word == "system"@ {
        Some(AssignmentSource::System)
    } else {
        None
    }
}

/// Returns the stored word of an assignment source.
pub fn assignment_source_to_str(source: AssignmentSource) -> (r: &'static str)
    ensures
        r@ == assignment_source_word(source),
{
    match source {
        AssignmentSource::Automatic => "automatic",
        AssignmentSource::User => "user",
        AssignmentSource::Imported => "imported",
        AssignmentSource::System => "system",
    }
}

/// Reads a stored assignment source word, rejecting an unknown one.
pub fn assignment_source_from_str(value: &str) -> (r: Result<AssignmentSource, StoreError>)
    ensures
        match assignment_source_from_word(value@) {
            Some(source) => r == Ok::<AssignmentSource, StoreError>(source),
            None => r matches Err(e) && is_unsupported(
                e,
                "annotation.assignment_source"@,
                value@,
            ),
        },
{
    if str_eq(value, "automatic") {
        Ok(AssignmentSource::Automatic)
    } else if str_eq(value, "user") {
        Ok(AssignmentSource::User)
    } else if str_eq(value, "imported") {
        Ok(AssignmentSource::Imported)
    } else if str_eq(value, "system") {
        Ok(AssignmentSource::System)
    } else {
        Err(
            StoreError::UnsupportedStoredData {
                field: "annotation.assignment_source".to_owned(),
                value: value.to_owned(),
            },
        )
    }
}

/// A stored assignment source reads back as the source that was stored.
pub proof fn law_assignment_source_round_trip(source: AssignmentSource)
    ensures
        assignment_source_from_word(assignment_source_word(source)) == Some(source),
{
    reveal_strlit("automatic");
    reveal_strlit("user");
    reveal_strlit("imported");
    reveal_strlit("system");
    assert("automatic"@.len() == 9);
    assert("user"@.len() == 4);
    assert("imported"@.len() == 8);
    assert("system"@.len() == 6);
}

/// The entries, or the error message, of a result that carries pairs.
pub open spec fn pairs_result_view(r: Result<Vec<(String, String)>, String>) -> Result<
    Seq<(Seq<char>, Seq<char>)>,
    Seq<char>,
> {
    match r {
        Ok(v) => Ok(pairs_view(v@)),
        Err(m) => Err(m@),
    }
}

/// The text, or the error message, of a result that carries text.
pub open spec fn text_result_view(r: Result<String, String>) -> Result<Seq<char>, Seq<char>> {
    match r {
        Ok(t) => Ok(t@),
        Err(m) => Err(m@),
    }
}

/// Whether written JSON text, if writing succeeded, reads back as `entries`.
pub open spec fn reads_back_as(r: Result<String, String>, entries: Seq<(Seq<char>, Seq<char>)>) -> bool {
    r matches Ok(text) ==> json_string_map(text@) == Ok::<Seq<(Seq<char>, Seq<char>)>, Seq<char>>(
        entries,
    )
}

/// What `serde_json` makes of a text read as a JSON object whose values are
/// strings: its entries, or the message of its error.
pub uninterp spec fn json_string_map(text: Seq<char>) -> Result<Seq<(Seq<char>, Seq<char>)>, Seq<char>>;

/// The JSON text `serde_json` writes for a map from strings to strings, or
/// the message of its error.
pub uninterp spec fn json_string_map_text(entries: Seq<(Seq<char>, Seq<char>)>) -> Result<
    Seq<char>,
    Seq<char>,
>;

/// Reads a JSON object of string values with `serde_json::from_str` into a
/// `BTreeMap<String, String>`, and hands out its entries in the map's
/// iteration order, or the error's message.
///
/// Claimed: the result is `json_string_map` of the text, and the keys of the
/// entries ascend, as a `BTreeMap` iterates them in the order of `str`, which
/// is the order of code points.
#[verifier::external_body]
fn read_json_string_map(text: &str) -> (r: Result<Vec<(String, String)>, String>)
    ensures
        pairs_result_view(r) == json_string_map(text@),
        r matches Ok(v) ==> keys_ascending(pairs_view(v@)),
{
    match serde_json::from_str::<std::collections::BTreeMap<String, String>>(text) {
        Ok(map) => Ok(map.into_iter().collect()),
        Err(error) => Err(error.to_string()),
    }
}

/// Writes a map's entries as a JSON object with `serde_json::to_string` on a
/// `BTreeMap<&str, &str>`, or gives the error's message.
///
/// Claimed: the result is `json_string_map_text` of the entries, and
/// reading written text back gives the same entries, since JSON strings
/// carry any text exactly and the map's keys already ascend. The map holds
/// each key once, so building the `BTreeMap` drops nothing.
#[verifier::external_body]
fn write_json_string_map(entries: &TextMap) -> (r: Result<String, String>)
    ensures
        text_result_view(r) == json_string_map_text(entries@),
        reads_back_as(r, entries@),
{
    let map: std::collections::BTreeMap<&str, &str> = entries.pairs().iter().map(
        |(key, value)| (key.as_str(), value.as_str()),
    ).collect();
    match serde_json::to_string(&map) {
        Ok(text) => Ok(text),
        Err(error) => Err(error.to_string()),
    }
}

/// Encodes a map's entries as JSON text for storage.
pub fn encode_text_map(entries: &TextMap) -> (r: Result<String, StoreError>)
    ensures
        match json_string_map_text(entries@) {
            Ok(text) => r matches Ok(s) && s@ == text && json_string_map(text) == Ok::<
                Seq<(Seq<char>, Seq<char>)>,
                Seq<char>,
            >(entries@),
            Err(message) => r matches Err(StoreError::Serialization { detail }) && detail@
                == message,
        },
{
    match write_json_string_map(entries) {
        Ok(text) => Ok(text),
        Err(detail) => Err(StoreError::Serialization { detail }),
    }
}

/// Decodes stored JSON text into a map; `field` names the stored value in
/// errors.
pub fn decode_text_map(text: &str, field: &str) -> (r: Result<TextMap, StoreError>)
    ensures
        match json_string_map(text@) {
            Ok(entries) => r matches Ok(m) && m@ == entries,
            Err(message) => r matches Err(e) && is_malformed(e, field@, message),
        },
{
    match read_json_string_map(text) {
        Ok(entries) => Ok(TextMap::from_ascending_pairs(entries)),
        Err(detail) => Err(StoreError::MalformedStoredData { field: field.to_owned(), detail }),
    }
}

/// Encodes event payload metadata as JSON text for storage.
pub fn encode_metadata(metadata: &Metadata) -> (r: Result<String, StoreError>)
    ensures
        match json_string_map_text(metadata@) {
            Ok(text) => r matches Ok(s) && s@ == text && json_string_map(text) == Ok::<
                Seq<(Seq<char>, Seq<char>)>,
                Seq<char>,
            >(metadata@),
            Err(message) => r matches Err(StoreError::Serialization { detail }) && detail@
                == message,
        },
{
    encode_text_map(metadata.as_text_map())
}

/// Decodes stored event payload metadata.
pub fn decode_metadata(value: &str) -> (r: Result<Metadata, StoreError>)
    ensures
        match json_string_map(value@) {
            Ok(entries) => r matches Ok(m) && m@ == entries,
            Err(message) => r matches Err(e) && is_malformed(e, "payload_metadata_json"@, message),
        },
{
    match decode_text_map(value, "payload_metadata_json") {
        Ok(entries) => Ok(Metadata::from_text_map(entries)),
        Err(e) => Err(e),
    }
}

/// Copies the bytes `b[from..to]`.
pub fn byte_slice(b: &[u8], from: usize, to: usize) -> (r: Vec<u8>)
    requires
        from <= to <= b@.len(),
    ensures
        r@ == b@.subrange(from as int, to as int),
{
    let mut out: Vec<u8> = Vec::new();
    let mut i = from;
    while i < to
        invariant
            from <= i <= to <= b@.len(),
            out@ == b@.subrange(from as int, i as int),
        decreases to - i,
    {
        out.push(b[i]);
        assert(b@.subrange(from as int, i + 1) =~= b@.subrange(from as int, i as int).push(
            b@[i as int],
        ));
        i = i + 1;
    }
    out
}

} // verus!
