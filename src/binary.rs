//! Variable-length byte items stored as one byte buffer and an offsets array.
use vstd::prelude::*;

verus! {

/// Items `data[offsets[i]..offsets[i + 1]]`, one per row.
pub struct BinaryColumn {
    data: Vec<u8>,
    offsets: Vec<usize>,
}

/// Offsets that start at zero, never decrease and end at `end`.
pub open spec fn offsets_wf(offsets: Seq<usize>, end: nat) -> bool {
    &&& offsets.len() >= 1
    &&& offsets[0] == 0
    &&& offsets.last() == end
    &&& forall|i: int, j: int| 0 <= i <= j < offsets.len() ==> offsets[i] <= offsets[j]
}

impl View for BinaryColumn {
    type V = Seq<Seq<u8>>;

    closed spec fn view(&self) -> Seq<Seq<u8>> {
        Seq::new(
            (self.offsets@.len() - 1) as nat,
            |i: int| self.data@.subrange(self.offsets@[i] as int, self.offsets@[i + 1] as int),
        )
    }
}

impl BinaryColumn {
    pub closed spec fn wf(&self) -> bool {
        offsets_wf(self.offsets@, self.data@.len())
    }

    /// A column with no rows.
    pub fn with_capacity(capacity: usize) -> (r: BinaryColumn)
        ensures
            r.wf(),
            r@ == Seq::<Seq<u8>>::empty(),
    {
        let mut offsets: Vec<usize> = Vec::with_capacity(capacity);
        offsets.push(0);
        let r = BinaryColumn { data: Vec::new(), offsets };
        assert(r@ =~= Seq::<Seq<u8>>::empty());
        r
    }

    /// Number of rows.
    pub fn len(&self) -> (r: usize)
        requires
            self.wf(),
        ensures
            r == self@.len(),
    {
        self.offsets.len() - 1
    }

    /// Appends the item at row `i` of `src`.
    pub fn push_from(&mut self, src: &BinaryColumn, i: usize)
        requires
            old(self).wf(),
            src.wf(),
            i < src@.len(),
        ensures
            final(self).wf(),
            final(self)@ == old(self)@.push(src@[i as int]),
    {
        let _n = src.offsets.len();
        let start = src.offsets[i];
        let end = src.offsets[i + 1];
        assert(start <= end);
        assert(end <= src.offsets@[src.offsets@.len() - 1]);
        let ghost d0 = self.data@;
        let mut k: usize = start;
        while k < end
            invariant
                start <= k <= end,
                end <= src.data@.len(),
                self.offsets@ == old(self).offsets@,
                self.data@ =~= d0 + src.data@.subrange(start as int, k as int),
            decreases end - k,
        {
            self.data.push(src.data[k]);
            k = k + 1;
            assert(self.data@ =~= d0 + src.data@.subrange(start as int, k as int));
        }
        let ghost o0 = self.offsets@;
        let n = self.data.len();
        self.offsets.push(n);
        assert(self@ =~= old(self)@.push(src@[i as int])) by {
            assert forall|j: int| 0 <= j < o0.len() - 1 implies #[trigger] self@[j] == old(self)@[j] by {
                assert(o0[j] <= o0[j + 1]);
                assert(o0[j + 1] <= o0[o0.len() - 1]);
                assert(self.data@.subrange(o0[j] as int, o0[j + 1] as int) =~= d0.subrange(o0[j] as int, o0[j + 1] as int));
            }
            assert(self@[o0.len() - 1] =~= src@[i as int]);
        }
    }

    /// Appends one item.
    pub fn push(&mut self, item: &[u8])
        requires
            old(self).wf(),
        ensures
            final(self).wf(),
            final(self)@ == old(self)@.push(item@),
    {
        let ghost d0 = self.data@;
        let mut k: usize = 0;
        while k < item.len()
            invariant
                k <= item@.len(),
                self.offsets@ == old(self).offsets@,
                self.data@ =~= d0 + item@.subrange(0, k as int),
            decreases item@.len() - k,
        {
            self.data.push(item[k]);
            k = k + 1;
            assert(self.data@ =~= d0 + item@.subrange(0, k as int));
        }
        let ghost o0 = self.offsets@;
        let n = self.data.len();
        self.offsets.push(n);
        assert(self@ =~= old(self)@.push(item@)) by {
            assert forall|j: int| 0 <= j < o0.len() - 1 implies #[trigger] self@[j] == old(self)@[j] by {
                assert(o0[j] <= o0[j + 1]);
                assert(o0[j + 1] <= o0[o0.len() - 1]);
                assert(self.data@.subrange(o0[j] as int, o0[j + 1] as int) =~= d0.subrange(o0[j] as int, o0[j + 1] as int));
            }
            assert(self@[o0.len() - 1] =~= item@);
        }
    }

    /// The bytes of row `i`.
    pub fn item(&self, i: usize) -> (r: Vec<u8>)
        requires
            self.wf(),
            i < self@.len(),
        ensures
            r@ == self@[i as int],
    {
        let _n = self.offsets.len();
        let start = self.offsets[i];
        let end = self.offsets[i + 1];
        assert(start <= end);
        assert(end <= self.offsets@[self.offsets@.len() - 1]);
        let mut r: Vec<u8> = Vec::new();
        let mut k: usize = start;
        while k < end
            invariant
                start <= k <= end,
                end <= self.data@.len(),
                r@ =~= self.data@.subrange(start as int, k as int),
            decreases end - k,
        {
            r.push(self.data[k]);
            k = k + 1;
            assert(r@ =~= self.data@.subrange(start as int, k as int));
        }
        r
    }
}

} // verus!
