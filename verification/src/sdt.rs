//! System description tables: a 36-byte header followed by a body, with a
//! checksum byte that keeps the sum of all bytes a multiple of 256.
use vstd::prelude::*;
use crate::le::{le32, le32_bytes, push_slice, push_u32, push_zeros, zeros};

verus! {

/// Offset of the length field in the header.
pub const LENGTH_OFFSET: usize = 4;
/// Offset of the checksum byte in the header.
pub const CHECKSUM_OFFSET: usize = 9;
/// Size of the common table header.
pub const HEADER_LEN: usize = 36;
/// Creator ID that a new table carries until it is overwritten.
pub const CREATOR_ID: [u8; 4] = [0x52u8, 0x56u8, 0x41u8, 0x54u8];
/// Creator revision that a new table carries until it is overwritten.
pub const CREATOR_REVISION: [u8; 4] = [1u8, 0u8, 0u8, 0u8];

/// Sum of the bytes of `s`, as an integer.
pub open spec fn byte_sum(s: Seq<u8>) -> int
    decreases s.len(),
{
    if s.len() == 0 {
        0
    } else {
        byte_sum(s.drop_last()) + s.last()
    }
}

/// The checksum rule of ACPI tables: all bytes add up to 0 modulo 256.
pub open spec fn checksum_ok(s: Seq<u8>) -> bool {
    byte_sum(s) % 256 == 0
}

/// `s` with the range starting at `off` replaced by `b`.
pub open spec fn splice(s: Seq<u8>, off: int, b: Seq<u8>) -> Seq<u8> {
    s.subrange(0, off) + b + s.subrange(off + b.len(), s.len() as int)
}

/// A table's bytes with the checksum byte cleared: what the table says,
/// apart from the byte that only makes the sum come out right.
pub open spec fn image(s: Seq<u8>) -> Seq<u8> {
    s.update(CHECKSUM_OFFSET as int, 0u8)
}

/// The header of a table, with the checksum byte cleared.
pub open spec fn header_image(
    signature: Seq<u8>,
    length: u32,
    revision: u8,
    oem_id: Seq<u8>,
    oem_table: Seq<u8>,
    oem_revision: u32,
    creator_id: Seq<u8>,
    creator_revision: Seq<u8>,
) -> Seq<u8> {
    signature + le32(length) + seq![revision, 0u8] + oem_id + oem_table + le32(oem_revision)
        + creator_id + creator_revision
}

pub proof fn lemma_byte_sum_concat(a: Seq<u8>, b: Seq<u8>)
    ensures
        byte_sum(a + b) == byte_sum(a) + byte_sum(b),
    decreases b.len(),
{
    if b.len() == 0 {
        assert(a + b =~= a);
    } else {
        lemma_byte_sum_concat(a, b.drop_last());
        assert((a + b).drop_last() =~= a + b.drop_last());
    }
}

pub proof fn lemma_byte_sum_update(s: Seq<u8>, i: int, v: u8)
    requires
        0 <= i < s.len(),
    ensures
        byte_sum(s.update(i, v)) == byte_sum(s) - s[i] + v,
{
    let pre = s.subrange(0, i);
    let post = s.subrange(i + 1, s.len() as int);
    assert(s =~= pre + seq![s[i]] + post);
    assert(s.update(i, v) =~= pre + seq![v] + post);
    lemma_byte_sum_concat(pre + seq![s[i]], post);
    lemma_byte_sum_concat(pre, seq![s[i]]);
    lemma_byte_sum_concat(pre + seq![v], post);
    lemma_byte_sum_concat(pre, seq![v]);
    assert(seq![s[i]].drop_last() =~= Seq::<u8>::empty());
    assert(seq![v].drop_last() =~= Seq::<u8>::empty());
}

pub proof fn lemma_byte_sum_nonneg(s: Seq<u8>)
    ensures
        byte_sum(s) >= 0,
    decreases s.len(),
{
    if s.len() > 0 {
        lemma_byte_sum_nonneg(s.drop_last());
    }
}

/// A table under construction: its bytes, with the checksum kept valid.
pub struct Sdt {
    data: Vec<u8>,
}

impl Sdt {
    /// The bytes of the table.
    pub closed spec fn bytes(&self) -> Seq<u8> {
        self.data@
    }

    /// A table is well formed when it holds at least a header and its
    /// bytes add up to 0 modulo 256.
    pub open spec fn wf(&self) -> bool {
        &&& self.bytes().len() >= HEADER_LEN
        &&& checksum_ok(self.bytes())
    }

    /// Recomputes the checksum byte.
    fn update_checksum(&mut self)
        requires
            old(self).bytes().len() > CHECKSUM_OFFSET,
        ensures
            final(self).bytes().len() == old(self).bytes().len(),
            image(final(self).bytes()) == image(old(self).bytes()),
            checksum_ok(final(self).bytes()),
    {
        self.data.set(CHECKSUM_OFFSET, 0u8);
        let ghost cleared = self.data@;
        let mut acc: u8 = 0;
        let mut i: usize = 0;
        while i < self.data.len()
            invariant
                i <= self.data@.len(),
                self.data@ == cleared,
                acc as int == byte_sum(cleared.subrange(0, i as int)) % 256,
            decreases self.data@.len() - i,
        {
            proof {
                let pre = cleared.subrange(0, i as int);
                assert(cleared.subrange(0, i + 1).drop_last() =~= pre);
                lemma_byte_sum_nonneg(pre);
                vstd::arithmetic::div_mod::lemma_add_mod_noop(
                    byte_sum(pre),
                    cleared[i as int] as int,
                    256,
                );
                vstd::arithmetic::div_mod::lemma_small_mod(cleared[i as int] as nat, 256);
                vstd::arithmetic::div_mod::lemma_mod_twice(byte_sum(pre), 256);
                assert(byte_sum(cleared.subrange(0, i + 1)) == byte_sum(pre) + cleared[i as int]);
                assert((acc as int + cleared[i as int]) % 256 == byte_sum(cleared.subrange(0, i + 1)) % 256) by {
                    vstd::arithmetic::div_mod::lemma_add_mod_noop(acc as int, cleared[i as int] as int, 256);
                }
            }
            acc = acc.wrapping_add(self.data[i]);
            i = i + 1;
        }
        assert(cleared.subrange(0, cleared.len() as int) =~= cleared);
        let checksum: u8 = (255u8 - acc).wrapping_add(1);
        self.data.set(CHECKSUM_OFFSET, checksum);
        proof {
            lemma_byte_sum_update(cleared, CHECKSUM_OFFSET as int, checksum);
            lemma_byte_sum_nonneg(cleared);
            assert(self.data@ =~= cleared.update(CHECKSUM_OFFSET as int, checksum));
            assert(image(self.data@) =~= image(old(self).data@));
            vstd::arithmetic::div_mod::lemma_add_mod_noop(
                byte_sum(cleared),
                checksum as int,
                256,
            );
        }
    }
}

impl Sdt {
    /// A table of `length` bytes: the header that the arguments describe,
    /// then zeros, with a valid checksum.
    pub fn new(
        signature: [u8; 4],
        length: u32,
        revision: u8,
        oem_id: [u8; 6],
        oem_table: [u8; 8],
        oem_revision: u32,
    ) -> (sdt: Sdt)
        requires
            length >= HEADER_LEN,
        ensures
            sdt.wf(),
            sdt.bytes().len() == length,
            image(sdt.bytes()) == header_image(
                signature@,
                length,
                revision,
                oem_id@,
                oem_table@,
                oem_revision,
                CREATOR_ID@,
                CREATOR_REVISION@,
            ) + zeros((length - HEADER_LEN) as nat),
    {
        let mut data: Vec<u8> = Vec::new();
        push_slice(&mut data, &signature);
        push_u32(&mut data, length);
        data.push(revision);
        data.push(0u8);
        push_slice(&mut data, &oem_id);
        push_slice(&mut data, &oem_table);
        push_u32(&mut data, oem_revision);
        push_slice(&mut data, &CREATOR_ID);
        push_slice(&mut data, &CREATOR_REVISION);
        let ghost header = data@;
        assert(header =~= header_image(
            signature@,
            length,
            revision,
            oem_id@,
            oem_table@,
            oem_revision,
            CREATOR_ID@,
            CREATOR_REVISION@,
        ));
        push_zeros(&mut data, (length as usize) - HEADER_LEN);
        let mut sdt = Sdt { data };
        sdt.update_checksum();
        proof {
            assert(image(header + zeros((length - HEADER_LEN) as nat)) =~= header
                + zeros((length - HEADER_LEN) as nat));
        }
        sdt
    }

    /// Number of bytes in the table.
    pub fn len(&self) -> (n: usize)
        ensures
            n == self.bytes().len(),
    {
        self.data.len()
    }

    /// The bytes of the table.
    pub fn as_slice(&self) -> (s: &[u8])
        ensures
            s@ == self.bytes(),
    {
        self.data.as_slice()
    }

    /// Overwrites the bytes from `offset` on with `bytes`, then recomputes
    /// the checksum.
    pub fn write_bytes(&mut self, offset: usize, bytes: &[u8])
        requires
            old(self).wf(),
            offset + bytes@.len() <= old(self).bytes().len(),
        ensures
            final(self).wf(),
            final(self).bytes().len() == old(self).bytes().len(),
            image(final(self).bytes()) == image(splice(old(self).bytes(), offset as int, bytes@)),
    {
        let ghost start = self.data@;
        let mut i: usize = 0;
        while i < bytes.len()
            invariant
                i <= bytes@.len(),
                offset + bytes@.len() <= start.len(),
                self.data@.len() == start.len(),
                offset + bytes@.len() <= self.data.len(),
                forall|j: int|
                    0 <= j < start.len() ==> #[trigger] self.data@[j] == if offset <= j < offset
                        + i {
                        bytes@[j - offset]
                    } else {
                        start[j]
                    },
            decreases bytes@.len() - i,
        {
            self.data.set(offset + i, bytes[i]);
            i = i + 1;
        }
        assert(self.data@ =~= splice(start, offset as int, bytes@));
        self.update_checksum();
    }

    /// Writes a little-endian `u32` at `offset`.
    pub fn write_u32(&mut self, offset: usize, v: u32)
        requires
            old(self).wf(),
            offset + 4 <= old(self).bytes().len(),
        ensures
            final(self).wf(),
            final(self).bytes().len() == old(self).bytes().len(),
            image(final(self).bytes()) == image(splice(old(self).bytes(), offset as int, le32(v))),
    {
        let b = le32_bytes(v);
        self.write_bytes(offset, &b);
    }

    /// Appends `bytes` to the table and records the new length, as a `u32`,
    /// in the header's length field.
    pub fn append(&mut self, bytes: &[u8])
        requires
            old(self).wf(),
        ensures
            final(self).wf(),
            final(self).bytes().len() == old(self).bytes().len() + bytes@.len(),
            image(final(self).bytes()) == image(
                splice(
                    old(self).bytes() + bytes@,
                    LENGTH_OFFSET as int,
                    le32((old(self).bytes().len() + bytes@.len()) as u32),
                ),
            ),
    {
        push_slice(&mut self.data, bytes);
        let new_length = self.data.len() as u32;
        let b = le32_bytes(new_length);
        let ghost appended = self.data@;
        let mut i: usize = 0;
        while i < 4
            invariant
                i <= 4,
                appended.len() >= HEADER_LEN,
                self.data@.len() == appended.len(),
                b@.len() == 4,
                forall|j: int|
                    0 <= j < appended.len() ==> #[trigger] self.data@[j] == if LENGTH_OFFSET <= j
                        < LENGTH_OFFSET + i {
                        b@[j - LENGTH_OFFSET]
                    } else {
                        appended[j]
                    },
            decreases 4 - i,
        {
            self.data.set(LENGTH_OFFSET + i, b[i]);
            i = i + 1;
        }
        assert(self.data@ =~= splice(appended, LENGTH_OFFSET as int, b@));
        self.update_checksum();
    }
}

} // verus!
