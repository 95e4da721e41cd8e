use vstd::prelude::*;
use crate::bytes::{from_le16, le16_seq, push_le16_seq};

verus! {

/// Where a new entry goes in the boot order.
#[derive(Debug, Clone, Copy, PartialEq, Eq, Structural)]
pub enum Placement {
    /// After every other entry.
    Append,
    /// Before every other entry, so that it boots first.
    Prepend,
}

/// The entries of a `BootOrder` value: one little-endian 16-bit number per two bytes;
/// a trailing odd byte is ignored.
pub open spec fn decode_order_spec(bytes: Seq<u8>) -> Seq<u16> {
    Seq::new((bytes.len() / 2) as nat, |i: int| from_le16(bytes[2 * i], bytes[2 * i + 1]))
}

/// `order` with every occurrence of `entry` taken out, the rest in order.
pub open spec fn without(order: Seq<u16>, entry: u16) -> Seq<u16>
    decreases order.len(),
{
    if order.len() == 0 {
        order
    } else if order.last() == entry {
        without(order.drop_last(), entry)
    } else {
        without(order.drop_last(), entry).push(order.last())
    }
}

/// `order` with `entry` placed once, where `placement` says.
pub open spec fn insert_entry_spec(order: Seq<u16>, entry: u16, placement: Placement) -> Seq<u16> {
    match placement {
        Placement::Append => without(order, entry).push(entry),
        Placement::Prepend => seq![entry] + without(order, entry),
    }
}

/// Where `placement` puts the new entry in an order of `len` entries.
pub open spec fn placed_index(len: int, placement: Placement) -> int {
    match placement {
        Placement::Append => len - 1,
        Placement::Prepend => 0,
    }
}

/// Taking `entry` out leaves no occurrence of it.
pub proof fn lemma_without_excludes(order: Seq<u16>, entry: u16)
    ensures
        forall|i: int| 0 <= i < without(order, entry).len() ==> without(order, entry)[i] != entry,
        without(order, entry).len() <= order.len(),
    decreases order.len(),
{
    if order.len() > 0 {
        lemma_without_excludes(order.drop_last(), entry);
    }
}

/// Inserting an entry into any boot order leaves exactly one occurrence of it, at the
/// place its placement names, and the other entries in their old order.
pub proof fn lemma_inserted_once(order: Seq<u16>, entry: u16, placement: Placement)
    ensures
        ({
            let r = insert_entry_spec(order, entry, placement);
            &&& forall|i: int| 0 <= i < r.len() ==> (r[i] == entry <==> i == placed_index(r.len() as int, placement))
            &&& without(r, entry) == without(order, entry)
        }),
{
    lemma_without_excludes(order, entry);
    let w = without(order, entry);
    let r = insert_entry_spec(order, entry, placement);
    lemma_without_of_free(w, entry);
    match placement {
        Placement::Append => {
            assert(r.drop_last() =~= w);
        },
        Placement::Prepend => {
            lemma_without_front(entry, w);
        },
    }
}

/// Taking out an entry that does not occur changes nothing.
proof fn lemma_without_of_free(order: Seq<u16>, entry: u16)
    requires
        forall|i: int| 0 <= i < order.len() ==> order[i] != entry,
    ensures
        without(order, entry) == order,
    decreases order.len(),
{
    if order.len() > 0 {
        lemma_without_of_free(order.drop_last(), entry);
        assert(without(order.drop_last(), entry).push(order.last()) =~= order);
    }
}

/// An entry in front is dropped with the others.
proof fn lemma_without_front(entry: u16, rest: Seq<u16>)
    requires
        forall|i: int| 0 <= i < rest.len() ==> rest[i] != entry,
    ensures
        without(seq![entry] + rest, entry) == rest,
    decreases rest.len(),
{
    let s = seq![entry] + rest;
    if rest.len() == 0 {
        assert(s =~= seq![entry]);
        assert(s.drop_last() =~= Seq::<u16>::empty());
        assert(s.last() == entry);
        assert(without(s.drop_last(), entry) =~= rest);
    } else {
        assert(s.drop_last() =~= seq![entry] + rest.drop_last());
        assert(s.last() == rest.last());
        assert(rest.last() == rest[rest.len() - 1]);
        lemma_without_front(entry, rest.drop_last());
        assert(rest.drop_last().push(rest.last()) =~= rest);
    }
}

/// The entries of a `BootOrder` value.
pub fn decode_boot_order(bytes: &[u8]) -> (r: Vec<u16>)
    ensures
        r@ == decode_order_spec(bytes@),
{
    let len = bytes.len();
    let mut r: Vec<u16> = Vec::new();
    let mut k: usize = 0;
    while len - k >= 2
        invariant
            len == bytes@.len(),
            k <= len,
            k == 2 * r@.len(),
            r@ == decode_order_spec(bytes@).subrange(0, r@.len() as int),
        decreases len - k,
    {
        r.push((bytes[k] as u16 + 256 * bytes[k + 1] as u16) as u16);
        k = k + 2;
        assert(r@ =~= decode_order_spec(bytes@).subrange(0, r@.len() as int));
    }
    assert(r@.len() == bytes@.len() / 2);
    assert(decode_order_spec(bytes@).subrange(0, r@.len() as int) =~= decode_order_spec(bytes@));
    r
}

/// The bytes of a `BootOrder` value holding `order`.
pub fn encode_boot_order(order: &[u16]) -> (r: Vec<u8>)
    ensures
        r@ == le16_seq(order@),
{
    let mut r: Vec<u8> = Vec::new();
    push_le16_seq(&mut r, order);
    r
}

/// Places `entry` in `order` once, after removing any earlier occurrence of it.
pub fn insert_boot_entry(order: &[u16], entry: u16, placement: Placement) -> (r: Vec<u16>)
    ensures
        r@ == insert_entry_spec(order@, entry, placement),
{
    let mut kept: Vec<u16> = Vec::new();
    let mut i: usize = 0;
    while i < order.len()
        invariant
            i <= order@.len(),
            kept@ == without(order@.subrange(0, i as int), entry),
        decreases order@.len() - i,
    {
        let ghost next = order@.subrange(0, i + 1);
        assert(next.drop_last() =~= order@.subrange(0, i as int));
        if order[i] != entry {
            kept.push(order[i]);
        }
        i = i + 1;
    }
    assert(order@.subrange(0, order@.len() as int) =~= order@);
    match placement {
        Placement::Append => {
            kept.push(entry);
            kept
        },
        Placement::Prepend => {
            let mut r: Vec<u16> = Vec::new();
            r.push(entry);
            let mut j: usize = 0;
            while j < kept.len()
                invariant
                    j <= kept@.len(),
                    r@ == seq![entry] + kept@.subrange(0, j as int),
                decreases kept@.len() - j,
            {
                r.push(kept[j]);
                j = j + 1;
                assert(r@ =~= seq![entry] + kept@.subrange(0, j as int));
            }
            assert(kept@.subrange(0, kept@.len() as int) =~= kept@);
            r
        },
    }
}

/// The new `BootOrder` value: the old one (empty when it was absent) with `entry`
/// placed once.
pub fn updated_boot_order(existing: Option<&[u8]>, entry: u16, placement: Placement) -> (r: Vec<u8>)
    ensures
        r@ == le16_seq(
            insert_entry_spec(
                match existing {
                    Some(b) => decode_order_spec(b@),
                    None => Seq::empty(),
                },
                entry,
                placement,
            ),
        ),
{
    let order = match existing {
        Some(b) => decode_boot_order(b),
        None => Vec::new(),
    };
    let updated = insert_boot_entry(order.as_slice(), entry, placement);
    encode_boot_order(updated.as_slice())
}

/// The first boot-entry number probed for a free slot.
pub const FIRST_BOOT_SLOT: u16 = 1;

/// What the search for a free boot-entry slot does next.
#[derive(Debug, Clone, Copy, PartialEq, Eq, Structural)]
pub enum SlotStep {
    /// The probed number is free: use it.
    Use(u16),
    /// The probed number is taken: probe this one.
    Probe(u16),
    /// Every number up to the largest is taken.
    Exhausted,
}

/// One step of the ascending search for a free `Boot####` slot, given whether the
/// probed number `candidate` is in use.
pub fn next_slot_step(candidate: u16, in_use: bool) -> (r: SlotStep)
    ensures
        !in_use ==> r == SlotStep::Use(candidate),
        in_use && candidate < u16::MAX ==> r == SlotStep::Probe((candidate + 1) as u16),
        in_use && candidate == u16::MAX ==> r == SlotStep::Exhausted,
{
    if !in_use {
        SlotStep::Use(candidate)
    } else if candidate < u16::MAX {
        SlotStep::Probe(candidate + 1)
    } else {
        SlotStep::Exhausted
    }
}

} // verus!
