//! What holds of the layout model: the two directions of the codec, how a
//! minted identifier decodes, how resharding leaves the other fields alone,
//! and how identifiers are ordered.

use crate::bits::lemma_shifted_bound;
use crate::layout::{Fields, Layout};
use vstd::arithmetic::div_mod::{
    lemma_div_denominator, lemma_div_is_ordered, lemma_fundamental_div_mod,
    lemma_fundamental_div_mod_converse, lemma_multiply_divide_lt, lemma_small_mod,
};
use vstd::arithmetic::power2::{lemma2_to64, lemma_pow2_adds, lemma_pow2_pos, pow2};
use vstd::prelude::*;

verus! {

/// Any number is its lowest `k` bits plus `2^k` times the rest.
proof fn lemma_split(x: nat, k: nat)
    ensures
        x == x % pow2(k) + pow2(k) * (x / pow2(k)),
        x % pow2(k) < pow2(k),
{
    lemma_pow2_pos(k);
    lemma_fundamental_div_mod(x as int, pow2(k) as int);
}

/// A number put together from `k` low bits and a rest gives both back.
proof fn lemma_join(low: nat, rest: nat, k: nat)
    requires
        low < pow2(k),
    ensures
        (low + pow2(k) * rest) / pow2(k) == rest,
        (low + pow2(k) * rest) % pow2(k) == low,
{
    let d = pow2(k) as int;
    let x = (low + pow2(k) * rest) as int;
    assert(x == rest * d + low) by (nonlinear_arith)
        requires
            x == low + d * rest,
    ;
    lemma_fundamental_div_mod_converse(x, d, rest as int, low as int);
}

/// Dropping `a` bits and then `b` bits drops `a + b` bits.
proof fn lemma_drop_twice(x: nat, a: nat, b: nat)
    ensures
        (x / pow2(a)) / pow2(b) == x / pow2(a + b),
{
    lemma_pow2_pos(a);
    lemma_pow2_pos(b);
    lemma_pow2_adds(a, b);
    lemma_div_denominator(x as int, pow2(a) as int, pow2(b) as int);
}

/// Every identifier is the sum of its five windows, each at its place, the
/// time window taken with all the bits above it.
pub proof fn lemma_decompose(layout: Layout, id: nat)
    ensures
        id == layout.encode(
            Fields { time: id / pow2(layout.time_shift()), ..layout.decode(id) },
        ),
        layout.decode(id).time == (id / pow2(layout.time_shift())) % pow2(layout.time_bits),
        layout.fits(layout.decode(id)),
{
    let sb = layout.shard_bits;
    let nb = layout.node_bits;
    let d = layout.decode(id);
    lemma2_to64();
    let q1 = id / pow2(3);
    let q2 = q1 / pow2(10);
    let q3 = q2 / pow2(sb);
    let q4 = q3 / pow2(nb);
    lemma_split(q2, sb);
    lemma_split(q3, nb);
    lemma_drop_twice(id, 13, sb);
    lemma_drop_twice(id, 13 + sb, nb);
    lemma_pow2_adds(13, sb);
    lemma_pow2_adds(13 + sb, nb);
    lemma_pow2_pos(layout.time_bits);
    let (p, q) = (pow2(sb) as int, pow2(nb) as int);
    let (ns, ts) = (pow2(layout.node_shift()) as int, pow2(layout.time_shift()) as int);
    let (tag, seq, shard, node) = (d.tag as int, d.sequence as int, d.shard as int, d.node as int);
    assert(tag + 8 * (seq + 1024 * (shard + p * (node + q * q4))) == tag + 8 * seq + 8192 * shard
        + ns * node + ts * q4) by (nonlinear_arith)
        requires
            ns == 8192 * p,
            ts == ns * q,
    ;
}

/// An identifier put together from four fields that fit their windows and
/// anything at all above them gives each of them back.
pub proof fn lemma_recompose(layout: Layout, f: Fields)
    requires
        f.tag < 8,
        f.sequence < 1024,
        f.shard < pow2(layout.shard_bits),
        f.node < pow2(layout.node_bits),
    ensures
        layout.decode(layout.encode(f)) == (Fields {
            time: f.time % pow2(layout.time_bits),
            ..f
        }),
        layout.encode(f) / pow2(layout.time_shift()) == f.time,
        layout.encode(f) / pow2(layout.node_shift()) == f.node + pow2(layout.node_bits) * f.time,
        layout.encode(f) / 8192 == f.shard + pow2(layout.shard_bits) * (layout.encode(f) / pow2(
            layout.node_shift(),
        )),
        layout.encode(f) / 8 == f.sequence + 1024 * (layout.encode(f) / 8192),
        layout.encode(f) % 8192 == f.tag + 8 * f.sequence,
{
    let sb = layout.shard_bits;
    let nb = layout.node_bits;
    let id = layout.encode(f);
    lemma2_to64();
    let c = f.node + pow2(nb) * f.time;
    lemma_pow2_adds(13, sb);
    lemma_pow2_adds(13 + sb, nb);
    let (p, q) = (pow2(sb) as int, pow2(nb) as int);
    let (ns, ts) = (pow2(layout.node_shift()) as int, pow2(layout.time_shift()) as int);
    let (tag, seq, shard, node, time) = (
        f.tag as int,
        f.sequence as int,
        f.shard as int,
        f.node as int,
        f.time as int,
    );
    assert(tag + 8 * (seq + 1024 * (shard + p * (node + q * time))) == tag + 8 * seq + 8192 * shard
        + ns * node + ts * time) by (nonlinear_arith)
        requires
            ns == 8192 * p,
            ts == ns * q,
    ;
    lemma_join(f.shard, c, sb);
    lemma_drop_twice(id, 13, sb);
    lemma_join(f.node, f.time, nb);
    lemma_drop_twice(id, 13 + sb, nb);
}

/// Decoding undoes encoding: fields that fit their windows come back as
/// they went in, and the identifier has no bit above the time field.
pub proof fn lemma_decode_encode(layout: Layout, f: Fields)
    requires
        layout.fits(f),
    ensures
        layout.decode(layout.encode(f)) == f,
        layout.encode(f) < pow2(layout.total_bits()),
{
    lemma_recompose(layout, f);
    lemma_small_mod(f.time, pow2(layout.time_bits));
    let id = layout.encode(f);
    let ts = layout.time_shift();
    lemma_split(id, ts);
    let p = pow2(ts);
    let q = id / p;
    let low = id % p;
    lemma_shifted_bound(q, ts, layout.time_bits);
    let bound = pow2(ts + layout.time_bits);
    assert(id < bound) by (nonlinear_arith)
        requires
            id == low + p * q,
            low < p,
            q * p + p <= bound,
    ;
}

/// Encoding undoes decoding on every identifier that has no bit above the
/// time field.
pub proof fn lemma_encode_decode(layout: Layout, id: nat)
    requires
        id < pow2(layout.total_bits()),
    ensures
        layout.encode(layout.decode(id)) == id,
        layout.fits(layout.decode(id)),
{
    lemma_decompose(layout, id);
    let ts = layout.time_shift();
    let tb = layout.time_bits;
    lemma_pow2_adds(ts, tb);
    lemma_multiply_divide_lt(id as int, pow2(ts) as int, pow2(tb) as int);
    lemma_small_mod(id / pow2(ts), pow2(tb));
}

/// How a minted identifier decodes: time, node number and counter come back
/// reduced to their widths and unchanged where they fit, the shard is zero,
/// and the tag is the layout's.
pub proof fn lemma_minted_decodes(layout: Layout, elapsed: nat, node: nat, counter: nat)
    requires
        layout.valid(),
    ensures
        layout.decode(layout.minted(elapsed, node, counter)) == (Fields {
            time: elapsed % pow2(layout.time_bits),
            node: node % pow2(layout.node_bits),
            shard: 0,
            sequence: counter % 1024,
            tag: layout.tag,
        }),
        elapsed < pow2(layout.time_bits) ==> layout.decode(
            layout.minted(elapsed, node, counter),
        ).time == elapsed,
        node < layout.max_nodes() ==> layout.decode(layout.minted(elapsed, node, counter)).node
            == node,
        counter < 1024 ==> layout.decode(layout.minted(elapsed, node, counter)).sequence
            == counter,
{
    let f = layout.minted_fields(elapsed, node, counter);
    lemma_minted_fits(layout, elapsed, node, counter);
    lemma_decode_encode(layout, f);
    if elapsed < pow2(layout.time_bits) {
        lemma_small_mod(elapsed, pow2(layout.time_bits));
    }
    if node < pow2(layout.node_bits) {
        lemma_small_mod(node, pow2(layout.node_bits));
    }
}

/// The fields of a minted identifier fit their windows.
pub proof fn lemma_minted_fits(layout: Layout, elapsed: nat, node: nat, counter: nat)
    ensures
        layout.fits(layout.minted_fields(elapsed, node, counter)),
{
    lemma_pow2_pos(layout.time_bits);
    lemma_pow2_pos(layout.node_bits);
    lemma_pow2_pos(layout.shard_bits);
}

/// Encoding what a minted identifier decodes to gives the identifier back.
pub proof fn lemma_minted_roundtrip(layout: Layout, elapsed: nat, node: nat, counter: nat)
    ensures
        layout.encode(layout.decode(layout.minted(elapsed, node, counter))) == layout.minted(
            elapsed,
            node,
            counter,
        ),
        layout.minted(elapsed, node, counter) < pow2(layout.total_bits()),
{
    lemma_minted_fits(layout, elapsed, node, counter);
    lemma_decode_encode(layout, layout.minted_fields(elapsed, node, counter));
}

/// Resharding writes the shard field and nothing else: the identifier
/// decodes as before but for the new shard, and the bits below and above
/// the shard window, those above the time field too, stay as they were.
pub proof fn lemma_reshard_decodes(layout: Layout, id: nat, shard: nat)
    requires
        shard < layout.max_shards(),
    ensures
        layout.decode(layout.reshard(id, shard)) == (Fields { shard, ..layout.decode(id) }),
        layout.reshard(id, shard) % 8192 == id % 8192,
        layout.reshard(id, shard) / pow2(layout.node_shift()) == id / pow2(layout.node_shift()),
{
    let rest = id / pow2(layout.time_shift());
    let before = Fields { time: rest, ..layout.decode(id) };
    let after = Fields { shard, ..before };
    lemma_decompose(layout, id);
    lemma_recompose(layout, before);
    lemma_recompose(layout, after);
}

/// Resharding twice is resharding once with the second shard: the first
/// shard leaves no trace, and time, node, sequence and tag are those of the
/// identifier that was there at the start.
pub proof fn lemma_reshard_twice(layout: Layout, id: nat, first: nat, second: nat)
    requires
        first < layout.max_shards(),
        second < layout.max_shards(),
    ensures
        layout.reshard(layout.reshard(id, first), second) == layout.reshard(id, second),
        layout.decode(layout.reshard(layout.reshard(id, first), second)) == (Fields {
            shard: second,
            ..layout.decode(id)
        }),
{
    lemma_reshard_decodes(layout, id, first);
    lemma_reshard_decodes(layout, id, second);
    lemma_decompose(layout, id);
}

/// Resharding with the shard that is already there changes nothing.
pub proof fn lemma_reshard_same(layout: Layout, id: nat)
    ensures
        layout.reshard(id, layout.decode(id).shard) == id,
{
}

/// Identifiers are ordered as their fields are: one whose fields precede
/// another's, time first, is the smaller number.
pub proof fn lemma_encode_is_ordered(layout: Layout, f: Fields, g: Fields)
    requires
        layout.fits(f),
        layout.fits(g),
        f.precedes(g),
    ensures
        layout.encode(f) < layout.encode(g),
{
    let x = layout.encode(f);
    let y = layout.encode(g);
    lemma_recompose(layout, f);
    lemma_recompose(layout, g);
    if y <= x {
        lemma_pow2_pos(layout.time_shift());
        lemma_pow2_pos(layout.node_shift());
        lemma_div_is_ordered(y as int, x as int, pow2(layout.time_shift()) as int);
        lemma_div_is_ordered(y as int, x as int, pow2(layout.node_shift()) as int);
        assert(false);
    }
}

/// Identifiers minted by one node grow with time, and within one
/// millisecond with the sequence number: of two identifiers whose times fit
/// the time field, the one minted later is the larger, and of two minted in
/// the same millisecond the one with the larger sequence number is.
pub proof fn lemma_minted_order(
    layout: Layout,
    node: nat,
    earlier: nat,
    counter: nat,
    later: nat,
    next_counter: nat,
)
    requires
        earlier <= later < pow2(layout.time_bits),
        earlier == later ==> counter % 1024 < next_counter % 1024,
    ensures
        layout.minted(earlier, node, counter) < layout.minted(later, node, next_counter),
{
    let f = layout.minted_fields(earlier, node, counter);
    let g = layout.minted_fields(later, node, next_counter);
    lemma_minted_fits(layout, earlier, node, counter);
    lemma_small_mod(earlier, pow2(layout.time_bits));
    lemma_small_mod(later, pow2(layout.time_bits));
    lemma_encode_is_ordered(layout, f, g);
}

} // verus!
