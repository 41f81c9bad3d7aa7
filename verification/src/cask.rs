//! Fixed-capacity buffers of plain elements, with a header that records length and capacity
//! both in elements and in bytes, and a pool that lends such buffers out and takes them back.

use std::collections::VecDeque;
use std::marker::PhantomData;
use vstd::layout::size_of;
use vstd::math::min;
use vstd::prelude::*;

verus! {

/// Plain element types: `Copy` values with a designated all-zero value.
pub trait Pod: Copy + Sized {
    /// The all-zero value of the type.
    open spec fn spec_zeroed() -> Self {
        vstd::pervasive::arbitrary()
    }

    /// Returns the all-zero value of the type.
    fn zeroed() -> (z: Self)
        ensures
            z == Self::spec_zeroed(),
    ;
}

impl Pod for u8 {
    open spec fn spec_zeroed() -> u8 {
        0
    }

    fn zeroed() -> (z: u8) {
        0
    }
}

impl Pod for u16 {
    open spec fn spec_zeroed() -> u16 {
        0
    }

    fn zeroed() -> (z: u16) {
        0
    }
}

impl Pod for u32 {
    open spec fn spec_zeroed() -> u32 {
        0
    }

    fn zeroed() -> (z: u32) {
        0
    }
}

impl Pod for u64 {
    open spec fn spec_zeroed() -> u64 {
        0
    }

    fn zeroed() -> (z: u64) {
        0
    }
}

impl Pod for i16 {
    open spec fn spec_zeroed() -> i16 {
        0
    }

    fn zeroed() -> (z: i16) {
        0
    }
}

impl Pod for i32 {
    open spec fn spec_zeroed() -> i32 {
        0
    }

    fn zeroed() -> (z: i32) {
        0
    }
}

impl Pod for i64 {
    open spec fn spec_zeroed() -> i64 {
        0
    }

    fn zeroed() -> (z: i64) {
        0
    }
}

/// Number of bytes taken by `n` elements of type `T`.
pub open spec fn bytes_of<T>(n: int) -> int {
    n * size_of::<T>()
}

/// Length and capacity of a buffer, counted in elements and in bytes.
pub struct BufHeader<T> {
    pub capacity_bytes: usize,
    pub capacity_t: usize,
    pub len_bytes: usize,
    pub len_t: usize,
    pub _phantom: PhantomData<T>,
}

impl<T> BufHeader<T> {
    /// The byte counts agree with the element counts.
    pub open spec fn consistent(&self) -> bool {
        &&& self.capacity_bytes == bytes_of::<T>(self.capacity_t as int)
        &&& self.len_bytes == bytes_of::<T>(self.len_t as int)
    }

    /// Sets the length to `len_t` elements and the byte length to match.
    pub fn update_length(&mut self, len_t: usize)
        requires
            bytes_of::<T>(len_t as int) <= usize::MAX,
        ensures
            *final(self) == (BufHeader {
                len_t,
                len_bytes: bytes_of::<T>(len_t as int) as usize,
                ..*old(self)
            }),
    {
        self.len_t = len_t;
        self.len_bytes = len_t * std::mem::size_of::<T>();
    }

    /// Sets the capacity to `capacity_t` elements and the byte capacity to match.
    pub fn update_capacity(&mut self, capacity_t: usize)
        requires
            bytes_of::<T>(capacity_t as int) <= usize::MAX,
        ensures
            *final(self) == (BufHeader {
                capacity_t,
                capacity_bytes: bytes_of::<T>(capacity_t as int) as usize,
                ..*old(self)
            }),
    {
        self.capacity_t = capacity_t;
        self.capacity_bytes = capacity_t * std::mem::size_of::<T>();
    }
}

/// The abstract state of a buffer: its header and every storage slot (the first `len_t`
/// slots are the contents).
pub ghost struct BufferView<T> {
    pub header: BufHeader<T>,
    pub slots: Seq<T>,
}

impl<T> BufferView<T> {
    pub open spec fn capacity(self) -> nat {
        self.header.capacity_t as nat
    }

    pub open spec fn len(self) -> nat {
        self.header.len_t as nat
    }

    /// One slot per element of capacity, length within capacity, byte counts matching the
    /// element counts.
    pub open spec fn wf(self) -> bool {
        &&& self.slots.len() == self.capacity()
        &&& self.len() <= self.capacity()
        &&& self.header.consistent()
        &&& bytes_of::<T>(self.capacity() as int) + size_of::<BufHeader<T>>() <= usize::MAX
    }

    /// The elements currently held, oldest first.
    pub open spec fn contents(self) -> Seq<T> {
        self.slots.take(self.len() as int)
    }

    pub open spec fn is_full(self) -> bool {
        self.len() == self.capacity()
    }

    /// The same buffer with its length set to `len` (byte length to match).
    pub open spec fn with_len(self, len: nat) -> BufferView<T> {
        BufferView {
            header: BufHeader {
                len_t: len as usize,
                len_bytes: bytes_of::<T>(len as int) as usize,
                ..self.header
            },
            ..self
        }
    }

    /// The state after pushing `x` onto a buffer that is not full.
    pub open spec fn push(self, x: T) -> BufferView<T> {
        BufferView { slots: self.slots.update(self.len() as int, x), ..self.with_len(self.len() + 1) }
    }

    /// The state and the element after popping from a buffer.
    pub open spec fn pop(self) -> (BufferView<T>, Option<T>) {
        if self.len() == 0 {
            (self, None)
        } else {
            (self.with_len((self.len() - 1) as nat), Some(self.slots[self.len() - 1]))
        }
    }
}

impl<T: Pod> BufferView<T> {
    /// The state after `clear`: length zero, every slot zeroed.
    pub open spec fn cleared(self) -> BufferView<T> {
        BufferView { slots: Seq::new(self.slots.len(), |i: int| T::spec_zeroed()), ..self.with_len(0) }
    }

    /// `len` elements long, every slot zeroed.
    pub open spec fn zeroed_with_len(self, len: nat) -> BufferView<T> {
        BufferView {
            slots: Seq::new(self.capacity(), |i: int| T::spec_zeroed()),
            ..self.with_len(len)
        }
    }

    /// The state after copying `src` to the front, zeroing the rest.
    pub open spec fn copied_from(self, src: Seq<T>) -> BufferView<T> {
        BufferView {
            slots: Seq::new(
                self.capacity(),
                |i: int|
                    if i < src.len() {
                        src[i]
                    } else {
                        T::spec_zeroed()
                    },
            ),
            ..self.with_len(src.len())
        }
    }

    /// How many elements `copy_at_most_n(src, n)` copies.
    pub open spec fn copy_count(self, src_len: nat, n: nat) -> nat {
        min(min(self.capacity() as int, n as int), src_len as int) as nat
    }

    /// The state after copying at most `n` elements of `src` to the front: the copied slots
    /// hold `src`, the slots after them and below `n` are zeroed, the rest are kept.
    pub open spec fn copied_at_most(self, src: Seq<T>, n: nat) -> BufferView<T> {
        let count = self.copy_count(src.len(), n);
        BufferView {
            slots: Seq::new(
                self.capacity(),
                |i: int|
                    if i < count {
                        src[i]
                    } else if i < n {
                        T::spec_zeroed()
                    } else {
                        self.slots[i]
                    },
            ),
            ..self.with_len(count)
        }
    }
}

/// A buffer of at most `capacity` elements of type `T`, stored contiguously behind a header.
pub struct Buffer<T> {
    header: BufHeader<T>,
    data: Vec<T>,
}

impl<T> View for Buffer<T> {
    type V = BufferView<T>;

    closed spec fn view(&self) -> BufferView<T> {
        BufferView { header: self.header, slots: self.data@ }
    }
}

impl<T> Buffer<T> {
    /// The header and storage agree (see `BufferView::wf`).
    pub open spec fn wf(&self) -> bool {
        self@.wf()
    }
}

proof fn lemma_bytes_monotonic<T>(a: int, b: int)
    requires
        0 <= a <= b,
    ensures
        bytes_of::<T>(a) <= bytes_of::<T>(b),
{
    vstd::arithmetic::mul::lemma_mul_inequality(a, b, size_of::<T>() as int);
}

impl<T: Pod> Buffer<T> {
    fn max_elements(header: &BufHeader<T>) -> (m: usize)
        ensures
            m == header.capacity_t,
    {
        header.capacity_t
    }

    /// Creates an empty buffer with room for `capacity_t` elements, every slot zeroed.
    pub fn with_capacity(capacity_t: usize) -> (b: Self)
        requires
            bytes_of::<T>(capacity_t as int) + size_of::<BufHeader<T>>() <= usize::MAX,
        ensures
            b.wf(),
            b@.capacity() == capacity_t,
            b@.len() == 0,
            b@.slots == Seq::new(capacity_t as nat, |i: int| T::spec_zeroed()),
    {
        let data_size = capacity_t * std::mem::size_of::<T>();
        let header = BufHeader::<T> {
            capacity_bytes: data_size,
            capacity_t,
            len_bytes: 0,
            len_t: 0,
            _phantom: PhantomData,
        };
        let mut data: Vec<T> = Vec::new();
        let mut i: usize = 0;
        while i < capacity_t
            invariant
                i <= capacity_t,
                data@ == Seq::new(i as nat, |j: int| T::spec_zeroed()),
            decreases capacity_t - i,
        {
            data.push(T::zeroed());
            i = i + 1;
        }
        Buffer { header, data }
    }

    /// The header.
    pub fn header(&self) -> (h: &BufHeader<T>)
        ensures
            *h == self@.header,
    {
        &self.header
    }

    /// Mutable access to the header; the storage is left as it is.
    pub fn header_mut(&mut self) -> (h: &mut BufHeader<T>)
        ensures
            *h == old(self)@.header,
            final(self)@.header == *final(h),
            final(self)@.slots == old(self)@.slots,
    {
        &mut self.header
    }

    /// Every storage slot, including those past the length.
    pub fn data(&self) -> (d: &[T])
        ensures
            d@ == self@.slots,
    {
        self.data.as_slice()
    }

    /// Mutable access to every storage slot; the header is left as it is.
    pub fn raw_data_mut(&mut self) -> (d: &mut [T])
        ensures
            d@ == old(self)@.slots,
            final(self)@.slots == final(d)@,
            final(self)@.header == old(self)@.header,
    {
        self.data.as_mut_slice()
    }

    /// Mutable access to the slots within the length.
    pub fn data_mut(&mut self) -> (d: &mut [T])
        requires
            old(self).wf(),
        ensures
            d@ == old(self)@.contents(),
            final(self)@.slots == final(d)@ + old(self)@.slots.skip(old(self)@.len() as int),
            final(self)@.header == old(self)@.header,
    {
        let (header, data) = self.raw_split_mut();
        let len = header.len_t;
        let (front, _back) = data.split_at_mut(len);
        front
    }

    /// The header and every storage slot.
    pub fn split(&self) -> (r: (&BufHeader<T>, &[T]))
        ensures
            *r.0 == self@.header,
            r.1@ == self@.slots,
    {
        let header = self.header();
        let data = self.data();
        (header, data)
    }

    /// Mutable access to the header and to every storage slot at once.
    pub fn raw_split_mut(&mut self) -> (r: (&mut BufHeader<T>, &mut [T]))
        ensures
            *r.0 == old(self)@.header,
            r.1@ == old(self)@.slots,
            final(self)@.header == *final(r.0),
            final(self)@.slots == final(r.1)@,
    {
        (&mut self.header, self.data.as_mut_slice())
    }

    /// Mutable access to the header and to the slots within the length.
    pub fn split_mut(&mut self) -> (r: (&mut BufHeader<T>, &mut [T]))
        requires
            old(self).wf(),
        ensures
            *r.0 == old(self)@.header,
            r.1@ == old(self)@.contents(),
            final(self)@.header == *final(r.0),
            final(self)@.slots == final(r.1)@ + old(self)@.slots.skip(old(self)@.len() as int),
    {
        let (header, data) = self.raw_split_mut();
        let len = header.len_t;
        let (front, _back) = data.split_at_mut(len);
        (header, front)
    }
}


impl<T: Pod> Buffer<T> {
    /// Appends `item` after the current contents. The buffer must not be full.
    pub fn push(&mut self, item: T)
        requires
            old(self).wf(),
            !old(self)@.is_full(),
        ensures
            final(self).wf(),
            final(self)@ == old(self)@.push(item),
    {
        let (header, data) = self.raw_split_mut();
        let max = Self::max_elements(header);
        let len = header.len_t;
        proof {
            lemma_bytes_monotonic::<T>(len + 1, max as int);
        }
        data[len] = item;
        header.update_length(len + 1);
        proof {
            assert(final(self)@.header == old(self)@.push(item).header);
        }
    }

    /// Removes and returns the last element, or returns `None` when the buffer is empty.
    pub fn pop(&mut self) -> (r: Option<T>)
        requires
            old(self).wf(),
        ensures
            final(self).wf(),
            (final(self)@, r) == old(self)@.pop(),
    {
        let (header, data) = self.raw_split_mut();
        if header.len_t > 0 {
            let new_len_t = header.len_t - 1;
            proof {
                lemma_bytes_monotonic::<T>(new_len_t as int, header.capacity_t as int);
            }
            header.update_length(new_len_t);
            Some(data[new_len_t])
        } else {
            None
        }
    }

    pub fn is_empty(&self) -> (b: bool)
        ensures
            b == (self@.len() == 0),
    {
        self.header().len_t == 0
    }

    pub fn is_full(&self) -> (b: bool)
        ensures
            b == self@.is_full(),
    {
        let header = self.header();
        header.len_t == header.capacity_t
    }

    /// Sets the length to `new_size` and zeroes every slot. `new_size` must not exceed the
    /// capacity.
    pub fn resize(&mut self, new_size: usize)
        requires
            old(self).wf(),
            new_size <= old(self)@.capacity(),
        ensures
            final(self).wf(),
            final(self)@ == old(self)@.zeroed_with_len(new_size as nat),
    {
        proof {
            lemma_bytes_monotonic::<T>(new_size as int, self@.capacity() as int);
        }
        self.header.update_length(new_size);
        fill_zeroed(&mut self.data);
    }

    /// Copies `src` to the front of the storage, zeroes the remaining slots and sets the length
    /// to `src.len()`. `src` must fit within the capacity.
    pub fn copy_from_slice(&mut self, src: &[T])
        requires
            old(self).wf(),
            src@.len() <= old(self)@.capacity(),
        ensures
            final(self).wf(),
            final(self)@ == old(self)@.copied_from(src@),
    {
        let n = src.len();
        let cap = self.data.len();
        let ghost h0 = self.header;
        let mut i: usize = 0;
        while i < cap
            invariant
                self.header == h0,
                n <= cap,
                cap == self.data@.len(),
                n == src@.len(),
                i <= cap,
                forall|j: int|
                    0 <= j < i ==> self.data@[j] == (if j < n {
                        src@[j]
                    } else {
                        T::spec_zeroed()
                    }),
            decreases cap - i,
        {
            if i < n {
                self.data.set(i, src[i]);
            } else {
                self.data.set(i, T::zeroed());
            }
            i = i + 1;
        }
        proof {
            lemma_bytes_monotonic::<T>(n as int, cap as int);
        }
        self.header.update_length(n);
        proof {
            assert(self@.slots =~= old(self)@.copied_from(src@).slots);
        }
    }

    /// Copies the first elements of `src` to the front of the storage, at most `n` of them and
    /// at most the capacity; zeroes the slots after them up to position `n`; sets the length to
    /// the number copied, which it returns.
    pub fn copy_at_most_n(&mut self, src: Vec<T>, n: usize) -> (count: usize)
        requires
            old(self).wf(),
        ensures
            final(self).wf(),
            count == old(self)@.copy_count(src@.len(), n as nat),
            final(self)@ == old(self)@.copied_at_most(src@, n as nat),
    {
        let cap = self.data.len();
        let max_len = if cap < n { cap } else { n };
        let ghost old_slots = self.data@;
        let ghost h0 = self.header;
        let mut count: usize = 0;
        while count < max_len && count < src.len()
            invariant
                self.header == h0,
                cap == self.data@.len(),
                max_len <= cap,
                max_len <= n,
                count <= max_len,
                count <= src@.len(),
                forall|j: int| 0 <= j < count ==> self.data@[j] == src@[j],
                forall|j: int| count <= j < cap ==> self.data@[j] == old_slots[j],
            decreases max_len - count,
        {
            self.data.set(count, src[count]);
            count = count + 1;
        }
        let mut i: usize = count;
        while i < max_len
            invariant
                self.header == h0,
                cap == self.data@.len(),
                max_len <= cap,
                max_len <= n,
                count <= i <= max_len,
                forall|j: int| 0 <= j < count ==> self.data@[j] == src@[j],
                forall|j: int| count <= j < i ==> self.data@[j] == T::spec_zeroed(),
                forall|j: int| i <= j < cap ==> self.data@[j] == old_slots[j],
            decreases max_len - i,
        {
            self.data.set(i, T::zeroed());
            i = i + 1;
        }
        proof {
            lemma_bytes_monotonic::<T>(count as int, cap as int);
        }
        self.header.update_length(count);
        proof {
            assert(self@.slots =~= old(self)@.copied_at_most(src@, n as nat).slots);
        }
        count
    }

    /// Zeroes every slot and sets the length to zero.
    pub fn clear(&mut self)
        ensures
            final(self)@ == old(self)@.cleared(),
            old(self).wf() ==> final(self).wf() && final(self)@ == old(self)@.zeroed_with_len(0),
    {
        fill_zeroed(&mut self.data);
        self.header.update_length(0);
    }

    pub fn len_bytes(&self) -> (n: usize)
        ensures
            n == self@.header.len_bytes,
    {
        self.header().len_bytes
    }

    pub fn capacity_bytes(&self) -> (n: usize)
        ensures
            n == self@.header.capacity_bytes,
    {
        self.header().capacity_bytes
    }

    pub fn len(&self) -> (n: usize)
        ensures
            n == self@.len(),
    {
        self.header().len_t
    }

    pub fn capacity(&self) -> (n: usize)
        ensures
            n == self@.capacity(),
    {
        self.header().capacity_t
    }

    /// The bytes the buffer's header and its storage slots occupy together, counted from the
    /// slots it holds. (The header and the slots are held apart, not in one allocation.)
    pub fn storage_len_bytes(&self) -> (n: usize)
        requires
            self.wf(),
        ensures
            n == size_of::<BufHeader<T>>() + bytes_of::<T>(self@.slots.len() as int),
    {
        let slots = self.data.len();
        proof {
            assert(slots == self@.capacity());
        }
        std::mem::size_of::<BufHeader<T>>() + slots * std::mem::size_of::<T>()
    }
}

fn fill_zeroed<T: Pod>(data: &mut Vec<T>)
    ensures
        final(data)@ == Seq::new(old(data)@.len(), |i: int| T::spec_zeroed()),
{
    let len = data.len();
    let mut i: usize = 0;
    while i < len
        invariant
            len == data@.len(),
            i <= len,
            forall|j: int| 0 <= j < i ==> data@[j] == T::spec_zeroed(),
        decreases len - i,
    {
        data.set(i, T::zeroed());
        i = i + 1;
    }
    proof {
        assert(data@ =~= Seq::new(len as nat, |i: int| T::spec_zeroed()));
    }
}

/// A buffer lent out by a pool. It goes back with `BufferPool::return_buffer`.
pub struct BufWithPermit<T> {
    buffer: Buffer<T>,
}

impl<T> BufWithPermit<T> {
    pub closed spec fn spec_buffer(&self) -> Buffer<T> {
        self.buffer
    }
}

impl<T: Pod> BufWithPermit<T> {
    pub fn buffer_mut(&mut self) -> (b: &mut Buffer<T>)
        ensures
            *b == old(self).spec_buffer(),
            final(self).spec_buffer() == *final(b),
    {
        &mut self.buffer
    }

    pub fn buffer(&self) -> (b: &Buffer<T>)
        ensures
            *b == self.spec_buffer(),
    {
        &self.buffer
    }
}

/// Why a buffer could not be taken from a pool at once.
#[derive(Debug, Clone, Copy, PartialEq, Eq)]
pub enum TryAcquireError {
    /// Every buffer of the pool is lent out.
    NoPermits,
}

/// The abstract state of a pool: the buffers waiting to be handed out, oldest first; the
/// number of buffers the pool has been given, lent out or not; and the element capacity of the
/// buffers it creates.
pub ghost struct PoolView<T> {
    pub available: Seq<BufferView<T>>,
    pub capacity: nat,
    pub buffer_size: nat,
}

/// A freshly created buffer of `size` elements: empty, every slot zeroed.
pub open spec fn is_fresh<T: Pod>(v: BufferView<T>, size: nat) -> bool {
    &&& v.wf()
    &&& v.capacity() == size
    &&& v.len() == 0
    &&& v.slots == Seq::new(size, |i: int| T::spec_zeroed())
}

impl<T: Pod> PoolView<T> {
    /// Every waiting buffer is well-formed.
    pub open spec fn buffers_wf(self) -> bool {
        forall|i: int| 0 <= i < self.available.len() ==> (#[trigger] self.available[i]).wf()
    }

    /// The state after taking the oldest waiting buffer, and that buffer (`None`, and the state
    /// unchanged, when none waits).
    pub open spec fn take(self) -> (PoolView<T>, Option<BufferView<T>>) {
        if self.available.len() == 0 {
            (self, None)
        } else {
            (PoolView { available: self.available.drop_first(), ..self }, Some(self.available[0]))
        }
    }

    /// The state after a lent buffer comes back: cleared, behind the buffers already waiting.
    pub open spec fn give_back(self, b: BufferView<T>) -> PoolView<T> {
        PoolView { available: self.available.push(b.cleared()), ..self }
    }

    /// The state after the pool is given one more buffer, as it is.
    pub open spec fn with_pushed(self, b: BufferView<T>) -> PoolView<T> {
        PoolView { available: self.available.push(b), capacity: self.capacity + 1, ..self }
    }

    /// `after` is this state with `additional` fresh buffers added behind those waiting.
    pub open spec fn expanded_to(self, after: PoolView<T>, additional: nat) -> bool {
        &&& after.capacity == self.capacity + additional
        &&& after.buffer_size == self.buffer_size
        &&& after.available.len() == self.available.len() + additional
        &&& after.available.take(self.available.len() as int) == self.available
        &&& forall|i: int|
            self.available.len() <= i < after.available.len() ==> is_fresh(
                #[trigger] after.available[i],
                self.buffer_size,
            )
    }
}

/// A pool of buffers of one element capacity. Buffers are handed out oldest first and come
/// back cleared.
pub struct BufferPool<T> {
    buffers: VecDeque<Buffer<T>>,
    capacity: usize,
    buffer_size: usize,
}

impl<T> View for BufferPool<T> {
    type V = PoolView<T>;

    closed spec fn view(&self) -> PoolView<T> {
        PoolView {
            available: self.buffers@.map_values(|b: Buffer<T>| b@),
            capacity: self.capacity as nat,
            buffer_size: self.buffer_size as nat,
        }
    }
}

impl<T: Pod> BufferPool<T> {
    /// A pool with no buffers; buffers it creates later hold `buffer_size` elements.
    pub fn empty(buffer_size: usize) -> (p: Self)
        ensures
            p@ == (PoolView::<T> { available: Seq::empty(), capacity: 0, buffer_size: buffer_size as nat }),
    {
        let p = BufferPool { buffers: VecDeque::new(), capacity: 0, buffer_size };
        assert(p@.available =~= Seq::<BufferView<T>>::empty());
        p
    }

    /// A pool of `c` fresh buffers of `buffer_size` elements each.
    pub fn with_capacity(c: usize, buffer_size: usize) -> (p: Self)
        requires
            bytes_of::<T>(buffer_size as int) + size_of::<BufHeader<T>>() <= usize::MAX,
        ensures
            p@.available.len() == c,
            forall|i: int| 0 <= i < c ==> is_fresh(#[trigger] p@.available[i], buffer_size as nat),
            p@.capacity == c,
            p@.buffer_size == buffer_size,
    {
        let mut buffers: VecDeque<Buffer<T>> = VecDeque::with_capacity(c);
        let mut i: usize = 0;
        while i < c
            invariant
                i <= c,
                bytes_of::<T>(buffer_size as int) + size_of::<BufHeader<T>>() <= usize::MAX,
                buffers@.len() == i,
                forall|j: int|
                    0 <= j < i ==> is_fresh(#[trigger] buffers@[j]@, buffer_size as nat),
            decreases c - i,
        {
            buffers.push_back(Buffer::with_capacity(buffer_size));
            i = i + 1;
        }
        let p = BufferPool { buffers, capacity: c, buffer_size };
        assert forall|j: int| 0 <= j < c implies is_fresh(#[trigger] p@.available[j], buffer_size as nat) by {
            assert(p@.available[j] == buffers@[j]@);
        }
        p
    }

    /// Adds `buffer` to the pool, ready to be handed out after those already waiting.
    pub fn push_buffer(&mut self, buffer: Buffer<T>)
        requires
            old(self)@.capacity < usize::MAX,
        ensures
            final(self)@ == old(self)@.with_pushed(buffer@),
    {
        let ghost b = buffer@;
        self.buffers.push_back(buffer);
        self.capacity = self.capacity + 1;
        assert(self@.available =~= old(self)@.available.push(b));
    }

    /// Adds `additional` fresh buffers to the pool.
    pub fn expand_by(&mut self, additional: usize)
        requires
            old(self)@.capacity + additional <= usize::MAX,
            bytes_of::<T>(old(self)@.buffer_size as int) + size_of::<BufHeader<T>>() <= usize::MAX,
        ensures
            old(self)@.expanded_to(final(self)@, additional as nat),
    {
        let ghost old_view = self@;
        let ghost old_len = self.buffers@.len();
        let cap0 = self.capacity;
        let ghost size0 = self.buffer_size;
        let mut i: usize = 0;
        while i < additional
            invariant
                self.capacity == cap0,
                self.buffer_size == size0,
                size0 == old_view.buffer_size,
                old_view.available.len() == old_len,
                cap0 + additional <= usize::MAX,
                i <= additional,
                bytes_of::<T>(self.buffer_size as int) + size_of::<BufHeader<T>>() <= usize::MAX,
                self.buffers@.len() == old_len + i,
                forall|j: int| 0 <= j < old_len ==> (#[trigger] self.buffers@[j])@ == old_view.available[j],
                forall|j: int|
                    old_len <= j < self.buffers@.len() ==> is_fresh(
                        #[trigger] self.buffers@[j]@,
                        self.buffer_size as nat,
                    ),
            decreases additional - i,
        {
            let b = Buffer::with_capacity(self.buffer_size);
            self.buffers.push_back(b);
            i = i + 1;
        }
        self.capacity = cap0 + additional;
        proof {
            let after = self@;
            assert(after.available.take(old_len as int) =~= old_view.available) by {
                assert forall|j: int| 0 <= j < old_len implies after.available.take(old_len as int)[j]
                    == old_view.available[j] by {
                    assert(self.buffers@[j]@ == old_view.available[j]);
                }
            }
            assert forall|j: int| old_len <= j < after.available.len() implies is_fresh(
                #[trigger] after.available[j],
                old_view.buffer_size,
            ) by {
                assert(after.available[j] == self.buffers@[j]@);
            }
        }
    }

    pub fn capacity(&self) -> (c: usize)
        ensures
            c == self@.capacity,
    {
        self.capacity
    }

    /// The element capacity of the buffers the pool creates.
    pub fn buffer_size(&self) -> (n: usize)
        ensures
            n == self@.buffer_size,
    {
        self.buffer_size
    }

    /// The number of buffers ready to be handed out.
    pub fn available_buffers(&self) -> (n: usize)
        ensures
            n == self@.available.len(),
    {
        self.buffers.len()
    }

    /// Takes the oldest waiting buffer, or fails with `NoPermits` when none is waiting.
    pub fn try_get_buffer(&mut self) -> (r: Result<BufWithPermit<T>, TryAcquireError>)
        ensures
            final(self)@ == old(self)@.take().0,
            match r {
                Ok(b) => old(self)@.take().1 == Some(b.spec_buffer()@),
                Err(e) => old(self)@.take().1 is None && e == TryAcquireError::NoPermits,
            },
    {
        match self.buffers.pop_front() {
            Some(buffer) => {
                assert(self@.available =~= old(self)@.available.drop_first());
                Ok(BufWithPermit { buffer })
            },
            None => Err(TryAcquireError::NoPermits),
        }
    }

    /// Clears the lent buffer and puts it back, after the buffers already waiting.
    pub fn return_buffer(&mut self, buffer_and_permit: BufWithPermit<T>)
        ensures
            final(self)@ == old(self)@.give_back(buffer_and_permit.spec_buffer()@),
    {
        let mut buffer = buffer_and_permit.buffer;
        buffer.clear();
        self.buffers.push_back(buffer);
        assert(self@.available =~= old(self)@.available.push(buffer_and_permit.spec_buffer()@.cleared()));
    }
}

/// A buffer taken from a pool and given back leaves the pool with as many waiting buffers and
/// the same capacity as before; the buffer waits last, cleared, behind the others.
pub proof fn law_take_then_give_back<T: Pod>(v: PoolView<T>)
    requires
        v.available.len() > 0,
    ensures
        v.take().1 is Some,
        v.take().0.give_back(v.take().1->0).available == v.available.drop_first().push(
            v.available[0].cleared(),
        ),
        v.take().0.give_back(v.take().1->0).available.len() == v.available.len(),
        v.take().0.give_back(v.take().1->0).capacity == v.capacity,
        v.take().0.give_back(v.take().1->0).buffer_size == v.buffer_size,
{
}

/// A buffer that comes back to a pool with nothing waiting is the next one handed out, and it
/// is then empty, with a byte length of zero and every slot zeroed; a well-formed buffer stays
/// well-formed and keeps its capacity.
pub proof fn law_given_back_buffer_comes_out_cleared<T: Pod>(v: PoolView<T>, b: BufferView<T>)
    requires
        v.available.len() == 0,
    ensures
        v.give_back(b).take().1 == Some(b.cleared()),
        b.cleared().len() == 0,
        b.cleared().contents() == Seq::<T>::empty(),
        b.cleared().header.len_bytes == 0,
        b.wf() ==> b.cleared().wf() && b.cleared().capacity() == b.capacity()
            && b.cleared().slots == Seq::new(b.capacity(), |i: int| T::spec_zeroed()),
{
    assert(v.give_back(b).available =~= seq![b.cleared()]);
    assert(b.cleared().contents() =~= Seq::<T>::empty());
}

/// Handing out keeps every waiting buffer well-formed, and so do giving back and pushing
/// well-formed buffers and expanding.
pub proof fn law_pool_keeps_buffers_wf<T: Pod>(v: PoolView<T>, b: BufferView<T>, after: PoolView<T>, n: nat)
    requires
        v.buffers_wf(),
    ensures
        v.take().0.buffers_wf(),
        v.take().1 matches Some(t) ==> t.wf(),
        b.wf() ==> v.give_back(b).buffers_wf(),
        b.wf() ==> v.with_pushed(b).buffers_wf(),
        v.expanded_to(after, n) ==> after.buffers_wf(),
{
    if v.available.len() > 0 {
        assert forall|i: int| 0 <= i < v.take().0.available.len() implies (#[trigger] v.take().0.available[i]).wf() by {
            assert(v.take().0.available[i] == v.available[i + 1]);
        }
    }
    if v.expanded_to(after, n) {
        assert forall|i: int| 0 <= i < after.available.len() implies (#[trigger] after.available[i]).wf() by {
            if i < v.available.len() {
                assert(after.available.take(v.available.len() as int)[i] == after.available[i]);
            }
        }
    }
}

/// Popping right after a push gives back the pushed element and the contents and length
/// from before the push.
pub proof fn law_pop_undoes_push<T>(v: BufferView<T>, x: T)
    requires
        v.wf(),
        !v.is_full(),
    ensures
        v.push(x).wf(),
        v.push(x).pop().1 == Some(x),
        v.push(x).pop().0.contents() == v.contents(),
        v.push(x).pop().0.header == v.header,
{
    lemma_bytes_monotonic::<T>(v.len() + 1int, v.capacity() as int);
    assert(v.push(x).pop().0.contents() =~= v.contents());
}

/// Every operation on a well-formed buffer keeps it well-formed and keeps its capacity, in
/// elements and in bytes.
pub proof fn law_operations_keep_capacity<T: Pod>(v: BufferView<T>, x: T, src: Seq<T>, n: nat)
    requires
        v.wf(),
    ensures
        !v.is_full() ==> v.push(x).wf() && v.push(x).capacity() == v.capacity()
            && v.push(x).header.capacity_bytes == v.header.capacity_bytes,
        v.pop().0.wf() && v.pop().0.capacity() == v.capacity()
            && v.pop().0.header.capacity_bytes == v.header.capacity_bytes,
        n <= v.capacity() ==> v.zeroed_with_len(n).wf() && v.zeroed_with_len(n).capacity()
            == v.capacity(),
        src.len() <= v.capacity() ==> v.copied_from(src).wf() && v.copied_from(src).capacity()
            == v.capacity(),
        v.copied_at_most(src, n).wf() && v.copied_at_most(src, n).capacity() == v.capacity(),
{
    if !v.is_full() {
        lemma_bytes_monotonic::<T>(v.len() + 1int, v.capacity() as int);
    }
    if v.len() > 0 {
        lemma_bytes_monotonic::<T>(v.len() - 1, v.capacity() as int);
    }
    if n <= v.capacity() {
        lemma_bytes_monotonic::<T>(n as int, v.capacity() as int);
    }
    if src.len() <= v.capacity() {
        lemma_bytes_monotonic::<T>(src.len() as int, v.capacity() as int);
    }
    lemma_bytes_monotonic::<T>(v.copy_count(src.len(), n) as int, v.capacity() as int);
}

/// After `copy_from_slice(src)` the contents are exactly `src`; after `clear` the buffer is
/// empty and its byte length is zero.
pub proof fn law_copy_then_contents<T: Pod>(v: BufferView<T>, src: Seq<T>)
    requires
        v.wf(),
        src.len() <= v.capacity(),
    ensures
        v.copied_from(src).contents() == src,
        v.zeroed_with_len(0).contents() == Seq::<T>::empty(),
        v.zeroed_with_len(0).header.len_bytes == 0,
{
    assert(v.copied_from(src).contents() =~= src);
    assert(v.zeroed_with_len(0).contents() =~= Seq::<T>::empty());
}

/// Copying at most `n` elements keeps exactly the first `copy_count` elements of `src`.
pub proof fn law_copy_at_most_contents<T: Pod>(v: BufferView<T>, src: Seq<T>, n: nat)
    requires
        v.wf(),
    ensures
        v.copied_at_most(src, n).contents() == src.take(v.copy_count(src.len(), n) as int),
        v.copy_count(src.len(), n) <= n,
        v.copy_count(src.len(), n) <= src.len(),
        v.copy_count(src.len(), n) <= v.capacity(),
{
    assert(v.copied_at_most(src, n).contents() =~= src.take(v.copy_count(src.len(), n) as int));
}

} // verus!
