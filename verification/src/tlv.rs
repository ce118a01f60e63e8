//! Tag-length-value encoding.
//!
//! Each entry is one tag byte, the length of the value as two bytes in
//! little-endian order, and the value. Entries follow each other without
//! separators or padding.

use vstd::arithmetic::div_mod::lemma_div_denominator;
use vstd::arithmetic::power::{lemma_pow_positive, pow};
use vstd::prelude::*;

verus! {

/// An entry as a tag and the bytes of its value.
pub type EntryView = (u8, Seq<u8>);

/// The number that `bytes` hold in little-endian order.
pub open spec fn le_value(bytes: Seq<u8>) -> nat
    decreases bytes.len(),
{
    if bytes.len() == 0 {
        0
    } else {
        bytes[0] as nat + 256 * le_value(bytes.drop_first())
    }
}

/// The lowest `count` bytes of `value` in little-endian order.
pub open spec fn le_bytes(value: nat, count: nat) -> Seq<u8>
    decreases count,
{
    if count == 0 {
        Seq::empty()
    } else {
        seq![(value % 256) as u8] + le_bytes(value / 256, (count - 1) as nat)
    }
}

/// The number of values that `count` bytes can hold.
pub open spec fn radix(count: nat) -> nat
    decreases count,
{
    if count == 0 {
        1
    } else {
        256 * radix((count - 1) as nat)
    }
}

/// Writing a number and reading it back gives the number, if it fits.
pub proof fn law_le_round_trip(value: nat, count: nat)
    requires
        value < radix(count),
    ensures
        le_bytes(value, count).len() == count,
        le_value(le_bytes(value, count)) == value,
    decreases count,
{
    if count > 0 {
        law_le_round_trip(value / 256, (count - 1) as nat);
        assert(le_bytes(value, count).drop_first() =~= le_bytes(value / 256, (count - 1) as nat));
    }
}

/// Reading a number and writing it back gives the bytes.
pub proof fn law_le_bytes_unique(bytes: Seq<u8>)
    ensures
        le_value(bytes) < radix(bytes.len()),
        le_bytes(le_value(bytes), bytes.len()) == bytes,
    decreases bytes.len(),
{
    if bytes.len() > 0 {
        law_le_bytes_unique(bytes.drop_first());
        let value = le_value(bytes);
        let rest = le_value(bytes.drop_first());
        assert(value % 256 == bytes[0] && value / 256 == rest);
        assert(le_bytes(value, bytes.len()) =~= bytes);
    }
}

pub(crate) proof fn lemma_radix()
    ensures
        radix(1) == 0x100,
        radix(2) == 0x1_0000,
        radix(4) == 0x1_0000_0000,
        radix(8) == 0x1_0000_0000_0000_0000,
{
    reveal_with_fuel(radix, 9);
}

/// The encoding of one entry.
pub open spec fn entry_bytes(entry: EntryView) -> Seq<u8> {
    seq![entry.0] + le_bytes(entry.1.len(), 2) + entry.1
}

/// The encoding of a list of entries.
pub open spec fn encoded(entries: Seq<EntryView>) -> Seq<u8>
    decreases entries.len(),
{
    if entries.len() == 0 {
        Seq::empty()
    } else {
        entry_bytes(entries[0]) + encoded(entries.drop_first())
    }
}

/// The entries that `data` encodes; `None` if the last one is cut short.
pub open spec fn decoded(data: Seq<u8>) -> Option<Seq<EntryView>>
    decreases data.len(),
{
    if data.len() == 0 {
        Some(Seq::empty())
    } else if data.len() < 3 {
        None
    } else {
        let end = 3 + le_value(data.subrange(1, 3));
        if end > data.len() {
            None
        } else {
            match decoded(data.skip(end as int)) {
                Some(rest) => Some(seq![(data[0], data.subrange(3, end as int))] + rest),
                None => None,
            }
        }
    }
}

/// Decoding an encoded list of entries gives the list.
pub proof fn law_entries_round_trip(entries: Seq<EntryView>)
    requires
        forall|i: int| 0 <= i < entries.len() ==> (#[trigger] entries[i]).1.len() < 0x1_0000,
    ensures
        decoded(encoded(entries)) == Some(entries),
    decreases entries.len(),
{
    if entries.len() == 0 {
        assert(entries =~= Seq::<EntryView>::empty());
    } else {
        let rest = entries.drop_first();
        assert forall|i: int| 0 <= i < rest.len() implies (#[trigger] rest[i]).1.len() < 0x1_0000 by {
            assert(rest[i] == entries[i + 1]);
        }
        law_entries_round_trip(rest);
        lemma_radix();
        let (tag, value) = entries[0];
        law_le_round_trip(value.len(), 2);
        let data = encoded(entries);
        let end = (3 + value.len()) as int;
        assert(data.subrange(1, 3) =~= le_bytes(value.len(), 2));
        assert(data.subrange(3, end) =~= value);
        assert(data.skip(end) =~= encoded(rest));
        assert(seq![(tag, value)] + rest =~= entries);
    }
}

/// No other bytes decode to the same list of entries.
pub proof fn law_encoding_unique(data: Seq<u8>)
    requires
        decoded(data) is Some,
    ensures
        encoded(decoded(data)->0) == data,
    decreases data.len(),
{
    if data.len() == 0 {
        assert(data =~= Seq::<u8>::empty());
    } else {
        let end = (3 + le_value(data.subrange(1, 3))) as int;
        let rest = data.skip(end);
        law_encoding_unique(rest);
        law_le_bytes_unique(data.subrange(1, 3));
        let entries = decoded(data)->0;
        let value = data.subrange(3, end);
        assert(entries[0] == (data[0], value));
        assert(entries.drop_first() =~= decoded(rest)->0);
        assert(entry_bytes(entries[0]) + rest =~= data);
    }
}

/// An entry.
pub struct Entry {
    /// The tag.
    pub tag: u8,
    /// The value.
    pub value: Vec<u8>,
}

impl View for Entry {
    type V = EntryView;

    open spec fn view(&self) -> EntryView {
        (self.tag, self.value@)
    }
}

/// The views of a list of entries.
pub open spec fn entry_views(entries: Seq<Entry>) -> Seq<EntryView> {
    entries.map_values(|entry: Entry| entry@)
}

/// Appends the lowest `count` bytes of `value` in little-endian order.
pub fn push_le(buf: &mut Vec<u8>, value: u64, count: usize)
    ensures
        final(buf)@ == old(buf)@ + le_bytes(value as nat, count as nat),
    decreases count,
{
    let ghost before = buf@;
    if count > 0 {
        buf.push((value % 256) as u8);
        push_le(buf, value / 256, count - 1);
    }
    assert(buf@ =~= before + le_bytes(value as nat, count as nat));
}

/// Reads `count` bytes from position `pos` as a number in little-endian order.
pub fn read_le(data: &[u8], pos: usize, count: usize) -> (value: u64)
    requires
        pos + count <= data@.len(),
        count <= 8,
    ensures
        value == le_value(data@.subrange(pos as int, pos + count)),
        value < radix(count as nat),
    decreases count,
{
    let ghost bytes = data@.subrange(pos as int, pos + count);
    proof {
        lemma_radix();
    }
    if count == 0 || pos >= data.len() {
        return 0;
    }
    let rest: u64 = read_le(data, pos + 1, count - 1);
    assert(bytes.drop_first() =~= data@.subrange(pos + 1, pos + count));
    proof {
        law_le_bytes_unique(bytes);
        lemma_radix_monotone(count as nat, 8);
    }
    data[pos] as u64 + 256 * rest
}

proof fn lemma_radix_monotone(small: nat, large: nat)
    requires
        small <= large,
    ensures
        radix(small) <= radix(large),
    decreases large,
{
    if small < large {
        lemma_radix_monotone(small, (large - 1) as nat);
    }
}

/// Appends the encoding of one entry.
pub fn push_entry(buf: &mut Vec<u8>, tag: u8, value: &Vec<u8>)
    ensures
        final(buf)@ == old(buf)@ + entry_bytes((tag, value@)),
{
    let ghost before = buf@;
    buf.push(tag);
    push_le(buf, value.len() as u64, 2);
    let mut copy = value.clone();
    assert(copy@ =~= value@);
    buf.append(&mut copy);
    assert(buf@ =~= before + entry_bytes((tag, value@)));
}

/// Decodes a list of entries; `None` if the last one is cut short.
pub fn decode(data: &[u8]) -> (result: Option<Vec<Entry>>)
    ensures
        match result {
            Some(entries) => decoded(data@) == Some(entry_views(entries@)),
            None => decoded(data@) is None,
        },
{
    let mut entries: Vec<Entry> = Vec::new();
    let mut pos: usize = 0;
    assert(data@.skip(0) =~= data@);
    assert(entry_views(entries@) =~= Seq::<EntryView>::empty());
    proof {
        if let Some(rest) = decoded(data@) {
            assert(Seq::<EntryView>::empty() + rest =~= rest);
        }
    }
    while pos < data.len()
        invariant
            pos <= data@.len(),
            decoded(data@) == (match decoded(data@.skip(pos as int)) {
                Some(rest) => Some(entry_views(entries@) + rest),
                None => None,
            }),
        decreases data@.len() - pos,
    {
        let ghost remaining = data@.skip(pos as int);
        let ghost done = entry_views(entries@);
        if data.len() - pos < 3 {
            return None;
        }
        proof {
            lemma_radix();
        }
        let len: usize = read_le(data, pos + 1, 2) as usize;
        assert(remaining.subrange(1, 3) =~= data@.subrange(pos + 1, pos + 3));
        if len > data.len() - pos - 3 {
            return None;
        }
        let tag = data[pos];
        let start: usize = pos + 3;
        let value = vstd::slice::slice_subrange(data, start, start + len);
        let value = vstd::slice::slice_to_vec(value);
        assert(value@ =~= remaining.subrange(3, 3 + len));
        entries.push(Entry { tag, value });
        assert(entry_views(entries@) =~= done.push((tag, value@)));
        pos = start + len;
        assert(remaining.skip(3 + len) =~= data@.skip(pos as int));
        proof {
            if let Some(rest) = decoded(data@.skip(pos as int)) {
                assert(entry_views(entries@) + rest =~= done + (seq![(tag, value@)] + rest));
            }
        }
    }
    assert(data@.skip(pos as int) =~= Seq::<u8>::empty());
    assert(entry_views(entries@) + Seq::<EntryView>::empty() =~= entry_views(entries@));
    Some(entries)
}

/// Byte number `i` of a number in little-endian order is its digit of value 256 to the
/// power of `i`.
pub proof fn law_le_digits(value: nat, count: nat, i: int)
    requires
        0 <= i < count,
    ensures
        le_bytes(value, count).len() == count,
        le_bytes(value, count)[i] == value / pow(256, i as nat) as nat % 256,
    decreases count,
{
    lemma_le_bytes_len(value, count);
    lemma_pow_positive(256, i as nat);
    if i == 0 {
        reveal(pow);
        assert(pow(256, 0) == 1);
        assert(value / 1 == value);
    } else {
        let rest = le_bytes(value / 256, (count - 1) as nat);
        law_le_digits(value / 256, (count - 1) as nat, i - 1);
        assert(le_bytes(value, count)[i] == rest[i - 1]);
        lemma_pow_positive(256, (i - 1) as nat);
        assert(pow(256, i as nat) == 256 * pow(256, (i - 1) as nat)) by {
            reveal(pow);
        }
        lemma_div_denominator(value as int, 256, pow(256, (i - 1) as nat));
    }
}

proof fn lemma_le_bytes_len(value: nat, count: nat)
    ensures
        le_bytes(value, count).len() == count,
    decreases count,
{
    if count > 0 {
        lemma_le_bytes_len(value / 256, (count - 1) as nat);
    }
}

/// The value of bytes in little-endian order: the first byte counts once, and what follows
/// counts 256 times as much for each byte before it.
pub proof fn law_le_value_joined(low: Seq<u8>, high: Seq<u8>)
    ensures
        le_value(low + high) == le_value(low) + pow(256, low.len()) * le_value(high),
        forall|byte: u8| #[trigger] le_value(seq![byte]) == byte,
    decreases low.len(),
{
    assert forall|byte: u8| #[trigger] le_value(seq![byte]) == byte by {
        reveal_with_fuel(le_value, 2);
        assert(seq![byte].drop_first() =~= Seq::<u8>::empty());
    }
    if low.len() == 0 {
        reveal(pow);
        assert(low + high =~= high);
        assert(pow(256, 0) == 1);
    } else {
        let rest = low.drop_first();
        law_le_value_joined(rest, high);
        assert((low + high).drop_first() =~= rest + high);
        let factor = pow(256, rest.len());
        assert(pow(256, low.len()) == 256 * factor) by {
            reveal(pow);
        }
        let value = le_value(high) as int;
        assert(256 * (factor * value) == (256 * factor) * value) by (nonlinear_arith);
    }
}

/// An entry is its tag, the length of its value in two bytes of which the lower one comes
/// first, and its value.
pub proof fn law_entry_layout(entry: EntryView)
    requires
        entry.1.len() < 0x1_0000,
    ensures
        entry_bytes(entry).len() == 3 + entry.1.len(),
        entry_bytes(entry)[0] == entry.0,
        entry_bytes(entry)[1] + 256 * entry_bytes(entry)[2] == entry.1.len(),
        entry_bytes(entry).skip(3) == entry.1,
{
    reveal_with_fuel(le_bytes, 3);
    assert(entry_bytes(entry).skip(3) =~= entry.1);
}

/// Entries are encoded one after the other with nothing before, between or after them.
pub proof fn law_entries_joined(first: Seq<EntryView>, second: Seq<EntryView>)
    ensures
        encoded(first + second) == encoded(first) + encoded(second),
        forall|entry: EntryView| #[trigger] encoded(seq![entry]) == entry_bytes(entry),
    decreases first.len(),
{
    assert forall|entry: EntryView| #[trigger] encoded(seq![entry]) == entry_bytes(entry) by {
        reveal_with_fuel(encoded, 2);
        assert(seq![entry].drop_first() =~= Seq::<EntryView>::empty());
        assert(encoded(seq![entry]) =~= entry_bytes(entry));
    }
    if first.len() == 0 {
        assert(first + second =~= second);
        assert(encoded(first + second) =~= encoded(first) + encoded(second));
    } else {
        law_entries_joined(first.drop_first(), second);
        assert((first + second).drop_first() =~= first.drop_first() + second);
        assert(encoded(first + second) =~= encoded(first) + encoded(second));
    }
}

/// Data decodes exactly if it is the encoding of some entries, which are then the result.
pub proof fn law_decoded_exactly(data: Seq<u8>)
    ensures
        decoded(data) is Some ==> encoded(decoded(data)->0) == data,
        decoded(data) is None ==> forall|entries: Seq<EntryView>|
            #![trigger encoded(entries)]
            (forall|i: int| 0 <= i < entries.len() ==> (#[trigger] entries[i]).1.len() < 0x1_0000)
                ==> encoded(entries) != data,
{
    if decoded(data) is Some {
        law_encoding_unique(data);
    } else {
        assert forall|entries: Seq<EntryView>|
            #![trigger encoded(entries)]
            (forall|i: int|
                0 <= i < entries.len() ==> (#[trigger] entries[i]).1.len() < 0x1_0000) implies
            encoded(entries) != data by {
            law_entries_round_trip(entries);
        }
    }
}

/// The entries are known by their tags and all bytes of their values.
pub proof fn law_entry_views(entries: Seq<Entry>, i: int)
    requires
        0 <= i < entries.len(),
    ensures
        entry_views(entries).len() == entries.len(),
        entry_views(entries)[i].0 == entries[i].tag,
        entry_views(entries)[i].1 == entries[i].value@,
{
}

} // verus!
