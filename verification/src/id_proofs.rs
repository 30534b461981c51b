//! Why identifiers sort by the time of their making: the twelve hexadecimal
//! digits have a fixed width and the most significant digit first, so the
//! order of the texts is the order of the values that the digits hold.

use crate::id::{hex, hex_digit, id_text, time_field, time_field_limit, GeneratorState, Prefix};
use crate::text::precedes;
use vstd::prelude::*;

verus! {

/// Sixteen to the power of `width`.
pub open spec fn pow16(width: nat) -> int
    decreases width,
{
    if width == 0 {
        1
    } else {
        16 * pow16((width - 1) as nat)
    }
}

proof fn lemma_pow16_twelve()
    ensures
        pow16(12) == time_field_limit(),
{
    reveal_with_fuel(pow16, 13);
}

proof fn lemma_hex_len(v: int, width: nat)
    ensures
        hex(v, width).len() == width,
    decreases width,
{
    if width > 0 {
        lemma_hex_len(v / 16, (width - 1) as nat);
    }
}

/// Of two values that fit in `width` hexadecimal digits, the smaller one has
/// the smaller digit at the first place where their digits differ.
pub proof fn lemma_hex_order(a: int, b: int, width: nat) -> (k: int)
    requires
        0 <= a < b < pow16(width),
    ensures
        0 <= k < width,
        hex(a, width).take(k) == hex(b, width).take(k),
        hex(a, width)[k] < hex(b, width)[k],
    decreases width,
{
    lemma_hex_len(a, width);
    lemma_hex_len(b, width);
    if width == 0 {
        0
    } else {
        let rest = (width - 1) as nat;
        lemma_hex_len(a / 16, rest);
        lemma_hex_len(b / 16, rest);
        if a / 16 < b / 16 {
            let k = lemma_hex_order(a / 16, b / 16, rest);
            assert(hex(a, width).take(k) =~= hex(a / 16, rest).take(k));
            assert(hex(b, width).take(k) =~= hex(b / 16, rest).take(k));
            k
        } else {
            assert(a / 16 == b / 16);
            assert(a % 16 < b % 16);
            assert(hex(a, width).take(rest as int) =~= hex(a / 16, rest));
            assert(hex(b, width).take(rest as int) =~= hex(b / 16, rest));
            assert(hex_digit(a % 16) < hex_digit(b % 16));
            rest as int
        }
    }
}

/// Of two identifiers of one kind, the one whose digits hold the smaller
/// value comes first, whatever their random ends are.
pub proof fn lemma_order_by_time_field(
    prefix: Prefix,
    a: int,
    b: int,
    suffix_a: Seq<char>,
    suffix_b: Seq<char>,
)
    requires
        0 <= a < b < time_field_limit(),
    ensures
        precedes(
            prefix.text() + seq!['_'] + hex(a, 12) + suffix_a,
            prefix.text() + seq!['_'] + hex(b, 12) + suffix_b,
        ),
{
    lemma_pow16_twelve();
    lemma_hex_len(a, 12);
    lemma_hex_len(b, 12);
    let k = lemma_hex_order(a, b, 12);
    let head = prefix.text() + seq!['_'];
    let x = head + hex(a, 12) + suffix_a;
    let y = head + hex(b, 12) + suffix_b;
    assert(head.len() == 4);
    assert(x.take(4 + k) =~= head + hex(a, 12).take(k));
    assert(y.take(4 + k) =~= head + hex(b, 12).take(k));
    assert(x[4 + k] == hex(a, 12)[k]);
    assert(y[4 + k] == hex(b, 12)[k]);
    assert(x.take(4 + k) == y.take(4 + k));
}

/// The state of a generator that started as `g` and has made one identifier
/// at each of the timestamps `ts`, in order.
pub open spec fn state_after(g: GeneratorState, ts: Seq<int>) -> GeneratorState
    decreases ts.len(),
{
    if ts.len() == 0 {
        g
    } else {
        state_after(g, ts.drop_last()).after(ts.last())
    }
}

/// The identifier that such a generator makes at the timestamp `ts[k]`.
pub open spec fn nth_id(
    g: GeneratorState,
    prefix: Prefix,
    descending: bool,
    ts: Seq<int>,
    suffixes: Seq<Seq<char>>,
    k: int,
) -> Seq<char> {
    id_text(prefix, descending, ts[k], state_after(g, ts.take(k + 1)).counter, suffixes[k])
}

/// Whether the clock that gave the timestamps `ts` never went back, and
/// stayed within one span of 2^36 milliseconds, the span after which the
/// twelve digits start over.
pub open spec fn steady_clock(ts: Seq<int>) -> bool {
    &&& forall|k: int| 0 <= k < ts.len() ==> 0 <= #[trigger] ts[k]
    &&& forall|i: int, j: int| 0 <= i < j < ts.len() ==> #[trigger] ts[i] <= #[trigger] ts[j]
    &&& forall|k: int|
        0 <= k < ts.len() ==> #[trigger] ts[k] / 0x10_0000_0000 == ts[0] / 0x10_0000_0000
}

/// Whether a generator that started as `g` has made at most 4095 identifiers
/// at any one of the timestamps `ts`.
pub open spec fn within_tick_capacity(g: GeneratorState, ts: Seq<int>) -> bool {
    forall|k: int| 0 <= k < ts.len() ==> (#[trigger] state_after(g, ts.take(k + 1))).counter <= 4095
}

/// The value `timestamp * 4096 + counter` of the `k`-th identifier.
spec fn value_at(g: GeneratorState, ts: Seq<int>, k: int) -> int {
    ts[k] * 4096 + state_after(g, ts.take(k + 1)).counter
}

proof fn lemma_state_step(g: GeneratorState, ts: Seq<int>, k: int)
    requires
        0 <= k < ts.len(),
    ensures
        state_after(g, ts.take(k + 1)) == state_after(g, ts.take(k)).after(ts[k]),
        state_after(g, ts.take(k + 1)).last_timestamp == ts[k],
{
    assert(ts.take(k + 1).drop_last() =~= ts.take(k));
    assert(ts.take(k + 1).last() == ts[k]);
}

proof fn lemma_adjacent_values(g: GeneratorState, ts: Seq<int>, j: int)
    requires
        1 <= j < ts.len(),
        steady_clock(ts),
        within_tick_capacity(g, ts),
    ensures
        value_at(g, ts, j - 1) < value_at(g, ts, j),
{
    lemma_state_step(g, ts, j);
    lemma_state_step(g, ts, j - 1);
    let before = state_after(g, ts.take(j));
    let here = state_after(g, ts.take(j + 1));
    assert(ts.take(j - 1 + 1) == ts.take(j));
    assert(0 <= before.counter <= 4095);
    assert(here.counter <= 4095);
    assert(ts[j - 1] <= ts[j]);
}

proof fn lemma_values_rise(g: GeneratorState, ts: Seq<int>, i: int, j: int)
    requires
        0 <= i < j < ts.len(),
        steady_clock(ts),
        within_tick_capacity(g, ts),
    ensures
        value_at(g, ts, i) < value_at(g, ts, j),
    decreases j - i,
{
    lemma_adjacent_values(g, ts, j);
    if j - 1 > i {
        lemma_values_rise(g, ts, i, j - 1);
    }
}

/// The digits of the `k`-th identifier hold what is left of its value
/// within the span of the clock.
proof fn lemma_field_of_value(g: GeneratorState, ts: Seq<int>, k: int)
    requires
        0 <= k < ts.len(),
        steady_clock(ts),
        within_tick_capacity(g, ts),
    ensures
        time_field(ts[k], state_after(g, ts.take(k + 1)).counter, false) == value_at(g, ts, k) - (
        ts[0] / 0x10_0000_0000) * time_field_limit(),
        0 <= time_field(ts[k], state_after(g, ts.take(k + 1)).counter, false)
            < time_field_limit(),
{
    lemma_state_step(g, ts, k);
    let c = state_after(g, ts.take(k + 1)).counter;
    assert(0 <= c <= 4095);
    let t = ts[k];
    let span = t / 0x10_0000_0000;
    let r = t % 0x10_0000_0000;
    assert(span == ts[0] / 0x10_0000_0000);
    assert(t == span * 0x10_0000_0000 + r);
    assert(t * 4096 + c == span * 0x1_0000_0000_0000 + (r * 4096 + c));
    assert(0 <= r * 4096 + c < 0x1_0000_0000_0000);
    vstd::arithmetic::div_mod::lemma_fundamental_div_mod_converse(
        t * 4096 + c,
        0x1_0000_0000_0000,
        span,
        r * 4096 + c,
    );
}

/// Identifiers of one kind that one generator makes one after the other
/// come in strictly rising lexicographic order, and descending ones in
/// strictly falling order, as long as the clock is steady and no more than
/// 4095 of them are made within one millisecond.
pub proof fn lemma_ids_in_order(
    g: GeneratorState,
    prefix: Prefix,
    descending: bool,
    ts: Seq<int>,
    suffixes: Seq<Seq<char>>,
    i: int,
    j: int,
)
    requires
        suffixes.len() == ts.len(),
        0 <= i < j < ts.len(),
        steady_clock(ts),
        within_tick_capacity(g, ts),
    ensures
        !descending ==> precedes(
            nth_id(g, prefix, descending, ts, suffixes, i),
            nth_id(g, prefix, descending, ts, suffixes, j),
        ),
        descending ==> precedes(
            nth_id(g, prefix, descending, ts, suffixes, j),
            nth_id(g, prefix, descending, ts, suffixes, i),
        ),
{
    lemma_values_rise(g, ts, i, j);
    lemma_field_of_value(g, ts, i);
    lemma_field_of_value(g, ts, j);
    let ci = state_after(g, ts.take(i + 1)).counter;
    let cj = state_after(g, ts.take(j + 1)).counter;
    if descending {
        lemma_order_by_time_field(
            prefix,
            time_field(ts[j], cj, true),
            time_field(ts[i], ci, true),
            suffixes[j],
            suffixes[i],
        );
    } else {
        lemma_order_by_time_field(
            prefix,
            time_field(ts[i], ci, false),
            time_field(ts[j], cj, false),
            suffixes[i],
            suffixes[j],
        );
    }
}

} // verus!
