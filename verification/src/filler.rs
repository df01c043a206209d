//! The state-filler contract, which puts state on an account for a wipe to clear.
use crate::decimal::{decimal, decimal_text};
use vstd::prelude::*;
use vstd::utf8::encode_utf8;

verus! {

/// Key `i` of a `fill` call: the prefix and the decimal number of the key.
pub open spec fn fill_key(prefix: Seq<char>, i: int) -> Seq<u8> {
    encode_utf8(prefix + decimal(i as nat))
}

/// A value of `size` zero bytes.
pub open spec fn zeros(size: nat) -> Seq<u8> {
    Seq::new(size, |i: int| 0u8)
}

/// The entries that a `fill` call inserts, in order.
pub open spec fn fill_entries(prefix: Seq<char>, count: nat, value_size: nat) -> Seq<
    (Seq<u8>, Seq<u8>),
> {
    Seq::new(count, |i: int| (fill_key(prefix, i), zeros(value_size)))
}

/// What a list of entries holds.
pub open spec fn entry_views(entries: Seq<(Vec<u8>, Vec<u8>)>) -> Seq<(Seq<u8>, Seq<u8>)> {
    entries.map_values(|e: (Vec<u8>, Vec<u8>)| (e.0@, e.1@))
}

/// The entries that a `fill` call inserts, in order: `count` numbered keys, each with a value
/// of `value_size` zero bytes.
pub fn fill(prefix: &str, count: u32, value_size: u32) -> (entries: Vec<(Vec<u8>, Vec<u8>)>)
    ensures
        entry_views(entries@) == fill_entries(prefix@, count as nat, value_size as nat),
        entries@.len() == count,
        forall|i: int|
            0 <= i < count ==> (#[trigger] entries@[i]).0@ == encode_utf8(
                prefix@ + decimal(i as nat),
            ),
        forall|i: int| 0 <= i < count ==> (#[trigger] entries@[i]).1@.len() == value_size,
        forall|i: int, j: int|
            0 <= i < count && 0 <= j < value_size ==> #[trigger] entries@[i].1@[j] == 0,
{
    let mut entries: Vec<(Vec<u8>, Vec<u8>)> = Vec::new();
    for i in 0..count
        invariant
            entry_views(entries@) == fill_entries(prefix@, i as nat, value_size as nat),
    {
        let mut key: String = prefix.to_owned();
        key.append(decimal_text(i as u128).as_str());
        let value: Vec<u8> = vec![0u8; value_size as usize];
        let ghost before = entries@;
        entries.push((vstd::slice::slice_to_vec(key.as_str().as_bytes()), value));
        proof {
            assert(value@ =~= zeros(value_size as nat));
            assert(entry_views(entries@) =~= entry_views(before).push(
                (fill_key(prefix@, i as int), zeros(value_size as nat)),
            ));
            assert(entry_views(entries@) =~= fill_entries(
                prefix@,
                (i + 1) as nat,
                value_size as nat,
            ));
        }
    }
    proof {
        assert forall|i: int| 0 <= i < count implies entry_views(entries@)[i] == (
            (#[trigger] entries@[i]).0@,
            entries@[i].1@,
        ) by {}
        assert(entries@.len() == entry_views(entries@).len());
    }
    entries
}

} // verus!
