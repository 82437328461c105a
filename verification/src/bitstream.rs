//! A fixed bitfield of 2048 flags packed into 256 bytes, bit `i` in
//! byte `i / 8` at position `i % 8` (least significant first).

use vstd::prelude::*;

verus! {

/// Number of flags in a [`Bitstream2048`].
pub const BITSTREAM_BITS: usize = 2048;

/// Number of bytes that hold them.
pub const BITSTREAM_BYTES: usize = 256;

/// Whether bit `k` of byte `b` is set.
pub open spec fn byte_bit(b: u8, k: u8) -> bool {
    (b >> k) & 1u8 == 1u8
}

/// The flags that a byte string holds, in order.
pub open spec fn bits_of(bytes: Seq<u8>) -> Seq<bool> {
    Seq::new(8 * bytes.len(), |i: int| byte_bit(bytes[i / 8], (i % 8) as u8))
}

/// Number of `true` entries in a sequence of flags.
pub open spec fn count_true(s: Seq<bool>) -> nat
    decreases s.len(),
{
    if s.len() == 0 {
        0
    } else {
        count_true(s.drop_last()) + if s.last() { 1nat } else { 0nat }
    }
}

proof fn lemma_set_bit(b: u8, j: u8, k: u8)
    requires
        j < 8,
        k < 8,
    ensures
        byte_bit(b | (1u8 << j), k) == (k == j || byte_bit(b, k)),
{
    assert(byte_bit(b | (1u8 << j), k) == (k == j || byte_bit(b, k))) by (bit_vector)
        requires
            j < 8,
            k < 8,
    ;
}

proof fn lemma_clear_bit(b: u8, j: u8, k: u8)
    requires
        j < 8,
        k < 8,
    ensures
        byte_bit(b & !(1u8 << j), k) == (k != j && byte_bit(b, k)),
{
    assert(byte_bit(b & !(1u8 << j), k) == (k != j && byte_bit(b, k))) by (bit_vector)
        requires
            j < 8,
            k < 8,
    ;
}

proof fn lemma_zero_byte(k: u8)
    requires
        k < 8,
    ensures
        !byte_bit(0u8, k),
{
    assert(!byte_bit(0u8, k)) by (bit_vector)
        requires
            k < 8,
    ;
}

/// Positions of the `true` entries of a sequence of flags, ascending.
pub open spec fn true_positions(s: Seq<bool>) -> Seq<int>
    decreases s.len(),
{
    if s.len() == 0 {
        Seq::empty()
    } else {
        true_positions(s.drop_last()) + if s.last() {
            seq![s.len() - 1]
        } else {
            Seq::empty()
        }
    }
}

proof fn lemma_bytes_from_bits(x: u8, y: u8)
    requires
        forall|k: u8| k < 8 ==> byte_bit(x, k) == byte_bit(y, k),
    ensures
        x == y,
{
    assert(byte_bit(x, 0u8) == byte_bit(y, 0u8));
    assert(byte_bit(x, 1u8) == byte_bit(y, 1u8));
    assert(byte_bit(x, 2u8) == byte_bit(y, 2u8));
    assert(byte_bit(x, 3u8) == byte_bit(y, 3u8));
    assert(byte_bit(x, 4u8) == byte_bit(y, 4u8));
    assert(byte_bit(x, 5u8) == byte_bit(y, 5u8));
    assert(byte_bit(x, 6u8) == byte_bit(y, 6u8));
    assert(byte_bit(x, 7u8) == byte_bit(y, 7u8));
    assert(x == y) by (bit_vector)
        requires
            byte_bit(x, 0u8) == byte_bit(y, 0u8),
            byte_bit(x, 1u8) == byte_bit(y, 1u8),
            byte_bit(x, 2u8) == byte_bit(y, 2u8),
            byte_bit(x, 3u8) == byte_bit(y, 3u8),
            byte_bit(x, 4u8) == byte_bit(y, 4u8),
            byte_bit(x, 5u8) == byte_bit(y, 5u8),
            byte_bit(x, 6u8) == byte_bit(y, 6u8),
            byte_bit(x, 7u8) == byte_bit(y, 7u8),
    ;
}

/// Packed bytes are fully determined by their flags: two byte strings
/// of one length that hold the same flags are the same bytes. So a
/// bitfield stored as its bytes and read back is the same bitfield.
pub proof fn law_bits_determine_bytes(a: Seq<u8>, b: Seq<u8>)
    requires
        a.len() == b.len(),
        bits_of(a) == bits_of(b),
    ensures
        a == b,
{
    assert forall|i: int| 0 <= i < a.len() implies a[i] == b[i] by {
        assert forall|k: u8| k < 8 implies byte_bit(a[i], k) == byte_bit(b[i], k) by {
            let m = 8 * i + k;
            assert(m / 8 == i && m % 8 == k as int);
            assert(0 <= m < 8 * a.len());
            assert(bits_of(a)[m] == byte_bit(a[i], k));
            assert(bits_of(b)[m] == byte_bit(b[i], k));
            assert(bits_of(a)[m] == bits_of(b)[m]);
        }
        lemma_bytes_from_bits(a[i], b[i]);
    }
    assert(a =~= b);
}

/// 2048 flags.
#[derive(Debug, Clone, PartialEq, Eq)]
pub struct Bitstream2048 {
    bytes: [u8; 256],
}

impl View for Bitstream2048 {
    type V = Seq<bool>;

    closed spec fn view(&self) -> Seq<bool> {
        bits_of(self.bytes@)
    }
}

impl Bitstream2048 {
    /// All flags clear.
    pub fn new() -> (res: Self)
        ensures
            res@ == Seq::new(BITSTREAM_BITS as nat, |i: int| false),
    {
        let bytes: [u8; 256] = [0u8; 256];
        let res = Bitstream2048 { bytes };
        proof {
            assert forall|i: int| 0 <= i < BITSTREAM_BITS implies !#[trigger] res@[i] by {
                lemma_zero_byte((i % 8) as u8);
            }
            assert(res@ =~= Seq::new(BITSTREAM_BITS as nat, |i: int| false));
        }
        res
    }

    /// Number of flags (always 2048).
    pub fn len(&self) -> (res: usize)
        ensures
            res == self@.len(),
            res == BITSTREAM_BITS,
    {
        proof {
            broadcast use vstd::array::array_len_matches_n;
        }
        BITSTREAM_BITS
    }

    /// Flag `i`; `false` past the end.
    pub fn get(&self, i: usize) -> (res: bool)
        ensures
            res == (i < BITSTREAM_BITS && self@[i as int]),
    {
        proof {
            broadcast use vstd::array::array_len_matches_n;
        }
        if i >= BITSTREAM_BITS {
            return false;
        }
        let b = self.bytes[i / 8];
        let k: u8 = (i % 8) as u8;
        (b >> k) & 1u8 == 1u8
    }

    /// Sets flag `i`; an index past the end changes nothing.
    pub fn set(&mut self, i: usize)
        ensures
            i < BITSTREAM_BITS ==> final(self)@ == old(self)@.update(i as int, true),
            i >= BITSTREAM_BITS ==> final(self)@ == old(self)@,
    {
        proof {
            broadcast use vstd::array::array_len_matches_n;
        }
        if i >= BITSTREAM_BITS {
            return;
        }
        let ghost old_bytes = self.bytes@;
        let idx = i / 8;
        let j: u8 = (i % 8) as u8;
        let b = self.bytes[idx];
        let nb = b | (1u8 << j);
        self.bytes[idx] = nb;
        proof {
            assert forall|m: int| 0 <= m < BITSTREAM_BITS implies #[trigger] bits_of(self.bytes@)[m]
                == bits_of(old_bytes).update(i as int, true)[m] by {
                if m / 8 == idx as int {
                    lemma_set_bit(b, j, (m % 8) as u8);
                }
            }
            assert(bits_of(self.bytes@) =~= bits_of(old_bytes).update(i as int, true));
        }
    }

    /// Clears flag `i`; an index past the end changes nothing.
    pub fn clear(&mut self, i: usize)
        ensures
            i < BITSTREAM_BITS ==> final(self)@ == old(self)@.update(i as int, false),
            i >= BITSTREAM_BITS ==> final(self)@ == old(self)@,
    {
        proof {
            broadcast use vstd::array::array_len_matches_n;
        }
        if i >= BITSTREAM_BITS {
            return;
        }
        let ghost old_bytes = self.bytes@;
        let idx = i / 8;
        let j: u8 = (i % 8) as u8;
        let b = self.bytes[idx];
        let nb = b & !(1u8 << j);
        self.bytes[idx] = nb;
        proof {
            assert forall|m: int| 0 <= m < BITSTREAM_BITS implies #[trigger] bits_of(self.bytes@)[m]
                == bits_of(old_bytes).update(i as int, false)[m] by {
                if m / 8 == idx as int {
                    lemma_clear_bit(b, j, (m % 8) as u8);
                }
            }
            assert(bits_of(self.bytes@) =~= bits_of(old_bytes).update(i as int, false));
        }
    }

    /// Number of flags set.
    pub fn count_ones(&self) -> (res: usize)
        ensures
            res == count_true(self@),
    {
        let mut count: usize = 0;
        let mut i: usize = 0;
        proof {
            broadcast use vstd::array::array_len_matches_n;
            assert(self@.take(0) =~= Seq::<bool>::empty());
        }
        while i < BITSTREAM_BITS
            invariant
                i <= BITSTREAM_BITS,
                self@.len() == BITSTREAM_BITS,
                count == count_true(self@.take(i as int)),
                count <= i,
            decreases BITSTREAM_BITS - i,
        {
            let ghost before = self@.take(i as int);
            assert(self@.take(i + 1).drop_last() =~= before);
            if self.get(i) {
                count = count + 1;
            }
            i = i + 1;
        }
        assert(self@.take(BITSTREAM_BITS as int) =~= self@);
        count
    }

    /// Positions of the set flags, ascending.
    pub fn set_positions(&self) -> (res: Vec<u16>)
        ensures
            res@.len() == true_positions(self@).len(),
            forall|j: int| 0 <= j < res@.len() ==> #[trigger] res@[j] as int == true_positions(self@)[j],
    {
        let mut out: Vec<u16> = Vec::new();
        let mut i: usize = 0;
        proof {
            broadcast use vstd::array::array_len_matches_n;
            assert(self@.take(0) =~= Seq::<bool>::empty());
        }
        while i < BITSTREAM_BITS
            invariant
                i <= BITSTREAM_BITS,
                self@.len() == BITSTREAM_BITS,
                out@.len() == true_positions(self@.take(i as int)).len(),
                forall|j: int| 0 <= j < out@.len() ==> #[trigger] out@[j] as int == true_positions(self@.take(i as int))[j],
                forall|j: int| 0 <= j < true_positions(self@.take(i as int)).len() ==> 0 <= #[trigger] true_positions(self@.take(i as int))[j] < i,
            decreases BITSTREAM_BITS - i,
        {
            let ghost before = self@.take(i as int);
            let ghost after = self@.take(i + 1);
            assert(after.drop_last() =~= before);
            if self.get(i) {
                out.push(i as u16);
            }
            i = i + 1;
            proof {
                assert(true_positions(after) =~= true_positions(before) + if after.last() {
                    seq![after.len() - 1]
                } else {
                    Seq::<int>::empty()
                });
            }
        }
        assert(self@.take(BITSTREAM_BITS as int) =~= self@);
        out
    }

    /// The packed bytes, 256 of them.
    pub fn to_bytes(&self) -> (res: Vec<u8>)
        ensures
            res@.len() == BITSTREAM_BYTES,
            bits_of(res@) == self@,
    {
        proof {
            broadcast use vstd::array::array_len_matches_n;
        }
        let mut out: Vec<u8> = Vec::new();
        let mut i: usize = 0;
        while i < BITSTREAM_BYTES
            invariant
                i <= BITSTREAM_BYTES,
                self.bytes@.len() == BITSTREAM_BYTES,
                out@ =~= self.bytes@.take(i as int),
            decreases BITSTREAM_BYTES - i,
        {
            out.push(self.bytes[i]);
            i = i + 1;
        }
        assert(out@ =~= self.bytes@);
        out
    }

    /// Reads a bitfield back from its bytes; `None` unless there are
    /// exactly 256.
    pub fn from_bytes(bytes: &[u8]) -> (res: Option<Bitstream2048>)
        ensures
            res is Some <==> bytes@.len() == BITSTREAM_BYTES,
            res matches Some(b) ==> b@ == bits_of(bytes@),
    {
        if bytes.len() != BITSTREAM_BYTES {
            return None;
        }
        let mut arr: [u8; 256] = [0u8; 256];
        let mut i: usize = 0;
        proof {
            broadcast use vstd::array::array_len_matches_n;
        }
        while i < BITSTREAM_BYTES
            invariant
                i <= BITSTREAM_BYTES,
                bytes@.len() == BITSTREAM_BYTES,
                arr@.len() == BITSTREAM_BYTES,
                forall|j: int| 0 <= j < i ==> arr@[j] == bytes@[j],
            decreases BITSTREAM_BYTES - i,
        {
            arr[i] = bytes[i];
            i = i + 1;
        }
        assert(arr@ =~= bytes@);
        Some(Bitstream2048 { bytes: arr })
    }
}

} // verus!
