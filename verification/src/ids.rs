//! Identifiers of nodes and of spots.

use vstd::prelude::*;

verus! {

/// The name of a node: any text, compared character by character.
#[derive(Debug, PartialEq, Eq, Hash)]
pub struct NodeId(pub String);

impl View for NodeId {
    type V = Seq<char>;

    open spec fn view(&self) -> Seq<char> {
        self.0@
    }
}

impl Clone for NodeId {
    fn clone(&self) -> (out: Self)
        ensures
            out@ == self@,
    {
        NodeId(self.0.clone())
    }
}

impl NodeId {
    /// Whether the two names are the same text.
    pub fn same(&self, other: &NodeId) -> (b: bool)
        ensures
            b == (self@ == other@),
    {
        self.0 == other.0
    }
}

/// The digest that identifies a spot.
#[derive(Debug, Clone, Copy, PartialEq, Eq, Hash)]
pub struct SpotId(pub [u8; 32]);

impl View for SpotId {
    type V = Seq<u8>;

    open spec fn view(&self) -> Seq<u8> {
        self.0@
    }
}

/// The BLAKE3 digest of a byte string.
pub uninterp spec fn blake3_digest(input: Seq<u8>) -> Seq<u8>;

/// `blake3::hash`: the 32 bytes of the BLAKE3 digest of `input`.
#[verifier::external_body]
fn blake3_hash(input: &[u8]) -> (out: [u8; 32])
    ensures
        out@ == blake3_digest(input@),
{
    *blake3::hash(input).as_bytes()
}

/// The byte strings `parts`, one after another.
pub open spec fn concat_parts(parts: Seq<&[u8]>) -> Seq<u8>
    decreases parts.len(),
{
    if parts.len() == 0 {
        Seq::<u8>::empty()
    } else {
        concat_parts(parts.drop_last()) + parts.last()@
    }
}

impl SpotId {
    /// The identifier of the spot that `parts` describe: the digest of the
    /// parts taken as one byte string. Equal parts give equal identifiers.
    pub fn hash_components(parts: &[&[u8]]) -> (id: Self)
        ensures
            id@ == blake3_digest(concat_parts(parts@)),
            id@.len() == 32,
    {
        let mut all: Vec<u8> = Vec::new();
        let mut i: usize = 0;
        assert(parts@.take(0) =~= Seq::<&[u8]>::empty());
        while i < parts.len()
            invariant
                i <= parts.len(),
                all@ == concat_parts(parts@.take(i as int)),
            decreases parts.len() - i,
        {
            let part = parts[i];
            let ghost before = all@;
            let mut k: usize = 0;
            while k < part.len()
                invariant
                    k <= part.len(),
                    all@ == before + part@.take(k as int),
                decreases part.len() - k,
            {
                all.push(part[k]);
                assert(part@.take(k + 1) =~= part@.take(k as int).push(part@[k as int]));
                k += 1;
            }
            assert(part@.take(part.len() as int) =~= part@);
            assert(parts@.take(i + 1).drop_last() =~= parts@.take(i as int));
            assert(parts@.take(i + 1).last() == part);
            i += 1;
        }
        assert(parts@.take(parts.len() as int) =~= parts@);
        SpotId(blake3_hash(all.as_slice()))
    }
}

/// The eight bytes of `v`, the highest first.
pub open spec fn be_bytes(v: u64) -> Seq<u8> {
    seq![
        (v / 0x100_0000_0000_0000) as u8,
        ((v / 0x1_0000_0000_0000) % 256) as u8,
        ((v / 0x100_0000_0000) % 256) as u8,
        ((v / 0x1_0000_0000) % 256) as u8,
        ((v / 0x100_0000) % 256) as u8,
        ((v / 0x1_0000) % 256) as u8,
        ((v / 0x100) % 256) as u8,
        (v % 256) as u8,
    ]
}

/// The unsigned number with the bits of `v` in two's complement.
pub open spec fn twos_complement(v: i64) -> u64 {
    if v >= 0 {
        v as u64
    } else {
        (v + 0x1_0000_0000_0000_0000) as u64
    }
}

/// The eight bytes of `v`, the highest first.
pub fn u64_be_bytes(v: u64) -> (out: Vec<u8>)
    ensures
        out@ == be_bytes(v),
{
    let mut out: Vec<u8> = Vec::new();
    out.push((v / 0x100_0000_0000_0000) as u8);
    out.push(((v / 0x1_0000_0000_0000) % 256) as u8);
    out.push(((v / 0x100_0000_0000) % 256) as u8);
    out.push(((v / 0x1_0000_0000) % 256) as u8);
    out.push(((v / 0x100_0000) % 256) as u8);
    out.push(((v / 0x1_0000) % 256) as u8);
    out.push(((v / 0x100) % 256) as u8);
    out.push((v % 256) as u8);
    assert(out@ =~= be_bytes(v));
    out
}

/// The eight bytes of `v` in two's complement, the highest first.
pub fn i64_be_bytes(v: i64) -> (out: Vec<u8>)
    ensures
        out@ == be_bytes(twos_complement(v)),
{
    let bits: u64 = if v >= 0 {
        v as u64
    } else {
        ((v + i64::MAX) + 1) as u64 + 0x8000_0000_0000_0000
    };
    u64_be_bytes(bits)
}

} // verus!
