use vstd::prelude::*;

verus! {

/// A length stored shifted left by one bit, leaving the lowest bit free for
/// a tag.
#[derive(Clone, Copy)]
pub struct TaggedLen(usize);

impl TaggedLen {
    /// The stored word.
    pub closed spec fn word(self) -> usize {
        self.0
    }

    /// Tags `len`: it is stored shifted left by one bit, the tag bit clear.
    pub fn new(len: usize) -> (r: TaggedLen)
        requires
            len < isize::MAX as usize,
        ensures
            r.word() == 2 * len,
    {
        proof {
            vstd::arithmetic::power2::lemma2_to64();
            assert(2 * len <= usize::MAX);
            vstd::bits::lemma_usize_shl_is_mul(len, 1);
        }
        TaggedLen(len << 1)
    }

    /// The length, without the tag bit.
    pub fn value(self) -> (r: usize)
        ensures
            r == self.word() / 2,
    {
        let word = self.0;
        proof {
            vstd::arithmetic::power2::lemma2_to64();
            vstd::bits::lemma_usize_shr_is_div(word, 1);
        }
        word >> 1
    }
}

/// Tagging a length and reading it back gives the length.
pub proof fn lemma_tagged_len_round_trip(len: usize, tagged: TaggedLen)
    requires
        len < isize::MAX as usize,
        tagged.word() == 2 * len,
    ensures
        tagged.word() / 2 == len,
{
}

/// A vector of at most `N` items, with its length kept in a [`TaggedLen`].
pub struct SmallVec<T, const N: usize> {
    len: TaggedLen,
    items: Vec<T>,
}

impl<T, const N: usize> View for SmallVec<T, N> {
    type V = Seq<T>;

    closed spec fn view(&self) -> Seq<T> {
        self.items@
    }
}

impl<T: Clone, const N: usize> SmallVec<T, N> {
    /// The stored length agrees with the items, and there are at most `N`
    /// of them.
    pub closed spec fn wf(&self) -> bool {
        &&& self.len.word() == 2 * self.items@.len()
        &&& self.items@.len() <= N
    }

    /// A well-formed vector never holds more than `N` items.
    pub proof fn lemma_len_within_capacity(&self)
        requires
            self.wf(),
        ensures
            self@.len() <= N,
    {
    }

    /// An empty vector.
    pub fn new() -> (r: Self)
        ensures
            r.wf(),
            r@ == Seq::<T>::empty(),
    {
        SmallVec { len: TaggedLen(0), items: Vec::new() }
    }

    /// The number of items the vector can hold; it never holds more.
    pub fn capacity(&self) -> (r: usize)
        ensures
            r == N,
            self.wf() ==> self@.len() <= r,
    {
        N
    }

    /// The number of items, read from the tagged length.
    pub fn len(&self) -> (r: usize)
        requires
            self.wf(),
        ensures
            r == self@.len(),
            r <= N,
    {
        self.len.value()
    }

    /// A vector of `n` clones of `elem`.
    pub fn from_elem(elem: T, n: usize) -> (r: Self)
        requires
            n <= N,
            n < isize::MAX as usize,
        ensures
            r.wf(),
            r@.len() == n,
            forall|i: int| 0 <= i < n ==> cloned::<T>(elem, #[trigger] r@[i]),
    {
        let mut items: Vec<T> = Vec::new();
        let mut i: usize = 0;
        while i < n
            invariant
                i <= n,
                items@.len() == i,
                forall|j: int| 0 <= j < i ==> cloned::<T>(elem, #[trigger] items@[j]),
            decreases n - i,
        {
            items.push(elem.clone());
            i = i + 1;
        }
        SmallVec { len: TaggedLen::new(n), items }
    }
}

} // verus!
