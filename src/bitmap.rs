//! A growable packed bitmap, used for boolean columns and validity.
use vstd::prelude::*;

verus! {

/// One bit per row, eight rows to a byte, least significant bit first.
pub struct Bitmap {
    bytes: Vec<u8>,
    len: usize,
}

/// Bit `j` of byte `x`.
pub open spec fn bit_of(x: u8, j: u8) -> bool {
    (x >> j) & 1u8 == 1u8
}

proof fn lemma_set_bit(x: u8, k: u8)
    requires
        k < 8,
        x >> k == 0,
    ensures
        forall|j: u8| j < k ==> #[trigger] bit_of(x | (1u8 << k), j) == bit_of(x, j),
        bit_of(x | (1u8 << k), k),
        k + 1 < 8 ==> (x | (1u8 << k)) >> (k + 1) as u8 == 0,
{
    assert(forall|j: u8| j < k ==> #[trigger] (((x | (1u8 << k)) >> j) & 1u8) == ((x >> j) & 1u8)) by (bit_vector)
        requires
            k < 8,
            x >> k == 0,
    ;
    assert((((x | (1u8 << k)) >> k) & 1u8) == 1u8) by (bit_vector)
        requires
            k < 8,
            x >> k == 0,
    ;
    assert(k + 1 < 8 ==> (x | (1u8 << k)) >> (k + 1) as u8 == 0) by (bit_vector)
        requires
            k < 8,
            x >> k == 0,
    ;
}

proof fn lemma_clear_tail(x: u8, k: u8)
    requires
        k < 8,
        x >> k == 0,
    ensures
        !bit_of(x, k),
        k + 1 < 8 ==> x >> (k + 1) as u8 == 0,
{
    assert(((x >> k) & 1u8) == 0u8 && (k + 1 < 8 ==> x >> (k + 1) as u8 == 0)) by (bit_vector)
        requires
            k < 8,
            x >> k == 0,
    ;
}

proof fn lemma_first_bit(b: bool)
    ensures
        bit_of(if b { 1u8 } else { 0u8 }, 0) == b,
        (if b { 1u8 } else { 0u8 }) >> 1u8 == 0,
{
    assert(((1u8 >> 0u8) & 1u8) == 1u8 && ((0u8 >> 0u8) & 1u8) == 0u8) by (bit_vector);
    assert(1u8 >> 1u8 == 0 && 0u8 >> 1u8 == 0) by (bit_vector);
}

impl View for Bitmap {
    type V = Seq<bool>;

    closed spec fn view(&self) -> Seq<bool> {
        Seq::new(self.len as nat, |i: int| bit_of(self.bytes@[i / 8], (i % 8) as u8))
    }
}

impl Bitmap {
    /// The byte buffer holds exactly the bytes the bits need, and the unused
    /// high bits of the last byte are clear.
    pub closed spec fn wf(&self) -> bool {
        &&& self.bytes@.len() == (self.len + 7) / 8
        &&& self.len % 8 != 0 ==> self.bytes@.last() >> (self.len % 8) as u8 == 0
    }

    /// An empty bitmap with room for `capacity` bits.
    pub fn with_capacity(capacity: usize) -> (r: Bitmap)
        ensures
            r.wf(),
            r@ == Seq::<bool>::empty(),
    {
        let r = Bitmap { bytes: Vec::with_capacity(capacity / 8 + 1), len: 0 };
        assert(r@ =~= Seq::<bool>::empty());
        r
    }

    /// A bitmap holding the given bits in order.
    pub fn from_bools(bits: Vec<bool>) -> (r: Bitmap)
        ensures
            r.wf(),
            r@ == bits@,
    {
        let mut r = Bitmap::with_capacity(bits.len());
        let mut i: usize = 0;
        while i < bits.len()
            invariant
                i <= bits@.len(),
                r.wf(),
                r@ =~= bits@.take(i as int),
            decreases bits@.len() - i,
        {
            r.push(bits[i]);
            i = i + 1;
            assert(r@ =~= bits@.take(i as int));
        }
        assert(bits@.take(i as int) =~= bits@);
        r
    }

    /// Number of bits.
    pub fn len(&self) -> (r: usize)
        ensures
            r == self@.len(),
    {
        self.len
    }

    /// The bit at position `i`.
    pub fn get_bit(&self, i: usize) -> (r: bool)
        requires
            self.wf(),
            i < self@.len(),
        ensures
            r == self@[i as int],
    {
        let byte = self.bytes[i / 8];
        let k = (i % 8) as u8;
        (byte >> k) & 1u8 == 1u8
    }

    /// Appends one bit.
    pub fn push(&mut self, b: bool)
        requires
            old(self).wf(),
            old(self)@.len() < usize::MAX,
        ensures
            final(self).wf(),
            final(self)@ == old(self)@.push(b),
    {
        let ghost old_bytes = self.bytes@;
        let k = (self.len % 8) as u8;
        if k == 0 {
            let byte: u8 = if b { 1u8 } else { 0u8 };
            proof {
                lemma_first_bit(b);
            }
            self.bytes.push(byte);
        } else {
            let last = self.bytes.len() - 1;
            let x = self.bytes[last];
            proof {
                if b {
                    lemma_set_bit(x, k);
                } else {
                    lemma_clear_tail(x, k);
                }
            }
            if b {
                self.bytes.set(last, x | (1u8 << k));
            }
        }
        self.len = self.len + 1;
        assert(self@ =~= old(self)@.push(b)) by {
            assert forall|i: int| 0 <= i < old(self)@.len() implies #[trigger] self@[i] == old(self)@[i] by {
                if i / 8 == old_bytes.len() - 1 && k != 0 {
                    assert((i % 8) < k);
                }
            }
        }
    }

    /// The bits as booleans, in order.
    pub fn to_bools(&self) -> (r: Vec<bool>)
        requires
            self.wf(),
        ensures
            r@ == self@,
    {
        let mut r: Vec<bool> = Vec::with_capacity(self.len);
        let mut i: usize = 0;
        while i < self.len
            invariant
                self.wf(),
                i <= self@.len(),
                r@ =~= self@.take(i as int),
            decreases self@.len() - i,
        {
            r.push(self.get_bit(i));
            i = i + 1;
            assert(r@ =~= self@.take(i as int));
        }
        assert(self@.take(i as int) =~= self@);
        r
    }
}

} // verus!
