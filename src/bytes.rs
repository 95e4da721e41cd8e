use vstd::prelude::*;

verus! {

/// The two little-endian bytes of a 16-bit value.
pub open spec fn le16(v: u16) -> Seq<u8> {
    seq![(v % 256) as u8, (v / 256) as u8]
}

/// The four little-endian bytes of a 32-bit value.
pub open spec fn le32(v: u32) -> Seq<u8> {
    seq![(v % 256) as u8, (v / 256 % 256) as u8, (v / 65536 % 256) as u8, (v / 16777216) as u8]
}

/// The 16-bit value whose little-endian bytes are `lo`, `hi`.
pub open spec fn from_le16(lo: u8, hi: u8) -> u16 {
    (lo as int + 256 * hi as int) as u16
}

/// UTF-16 code units as little-endian bytes.
pub open spec fn le16_seq(units: Seq<u16>) -> Seq<u8>
    decreases units.len(),
{
    if units.len() == 0 {
        Seq::empty()
    } else {
        le16_seq(units.drop_last()) + le16(units.last())
    }
}

/// Two bytes for each code unit.
pub proof fn lemma_le16_seq_len(units: Seq<u16>)
    ensures
        le16_seq(units).len() == 2 * units.len(),
    decreases units.len(),
{
    if units.len() > 0 {
        lemma_le16_seq_len(units.drop_last());
    }
}

/// Appends the little-endian bytes of `v`.
pub fn push_le16(out: &mut Vec<u8>, v: u16)
    ensures
        final(out)@ == old(out)@ + le16(v),
{
    out.push((v % 256) as u8);
    out.push((v / 256) as u8);
    assert(final(out)@ =~= old(out)@ + le16(v));
}

/// Appends the little-endian bytes of `v`.
pub fn push_le32(out: &mut Vec<u8>, v: u32)
    ensures
        final(out)@ == old(out)@ + le32(v),
{
    out.push((v % 256) as u8);
    out.push((v / 256 % 256) as u8);
    out.push((v / 65536 % 256) as u8);
    out.push((v / 16777216) as u8);
    assert(final(out)@ =~= old(out)@ + le32(v));
}

/// Appends every byte of `src`, in order.
pub fn push_all(out: &mut Vec<u8>, src: &[u8])
    ensures
        final(out)@ == old(out)@ + src@,
{
    let ghost start = out@;
    let mut i: usize = 0;
    while i < src.len()
        invariant
            i <= src@.len(),
            out@ == start + src@.subrange(0, i as int),
        decreases src@.len() - i,
    {
        out.push(src[i]);
        i = i + 1;
        assert(out@ =~= start + src@.subrange(0, i as int));
    }
    assert(src@.subrange(0, src@.len() as int) =~= src@);
}

/// Appends each code unit of `units` as two little-endian bytes.
pub fn push_le16_seq(out: &mut Vec<u8>, units: &[u16])
    ensures
        final(out)@ == old(out)@ + le16_seq(units@),
{
    let ghost start = out@;
    let mut i: usize = 0;
    while i < units.len()
        invariant
            i <= units@.len(),
            out@ == start + le16_seq(units@.subrange(0, i as int)),
        decreases units@.len() - i,
    {
        push_le16(out, units[i]);
        let ghost next = units@.subrange(0, i + 1);
        assert(next.drop_last() =~= units@.subrange(0, i as int));
        i = i + 1;
        assert(out@ =~= start + le16_seq(units@.subrange(0, i as int)));
    }
    assert(units@.subrange(0, units@.len() as int) =~= units@);
}

} // verus!
