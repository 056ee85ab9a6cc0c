//! Paged linear memory and little-endian byte order.

use vstd::prelude::*;

verus! {

/// The size of a page of linear memory in bytes.
pub const PAGE_SIZE: usize = 65536;

/// The largest number of pages that a memory can have.
pub const MAX_PAGES: usize = 65536;

/// Why a memory operation failed.
#[derive(Clone, Copy, Debug, PartialEq, Eq, Structural)]
pub enum Error {
    /// An access ends past the memory: the end that was asked for (`None` when
    /// it does not fit a `usize`) and the length of the memory.
    OutOfBounds(Option<usize>, usize),
    /// Growing to `pages` would exceed `limit`.
    GrowError { pages: usize, limit: usize },
}

/// The number that the bytes `s` denote in little-endian order.
pub open spec fn le_value(s: Seq<u8>) -> nat
    decreases s.len(),
{
    if s.len() == 0 {
        0
    } else {
        s[0] as nat + 256 * le_value(s.drop_first())
    }
}

/// The `n` low bytes of `v` in little-endian order.
pub open spec fn le_bytes(v: nat, n: nat) -> Seq<u8>
    decreases n,
{
    if n == 0 {
        Seq::<u8>::empty()
    } else {
        seq![(v % 256) as u8] + le_bytes(v / 256, (n - 1) as nat)
    }
}

/// 256 to the power `n`: how many numbers `n` bytes can denote.
pub open spec fn byte_range(n: nat) -> nat
    decreases n,
{
    if n == 0 {
        1
    } else {
        256 * byte_range((n - 1) as nat)
    }
}

/// The ranges of one, two, four and eight bytes.
pub proof fn lemma_byte_ranges()
    ensures
        byte_range(0) == 1,
        byte_range(1) == 0x100,
        byte_range(2) == 0x1_0000,
        byte_range(3) == 0x100_0000,
        byte_range(4) == 0x1_0000_0000,
        byte_range(5) == 0x100_0000_0000,
        byte_range(6) == 0x1_0000_0000_0000,
        byte_range(7) == 0x100_0000_0000_0000,
        byte_range(8) == 0x1_0000_0000_0000_0000,
{
    reveal_with_fuel(byte_range, 10);
}

/// `le_bytes` has the length asked for.
pub proof fn lemma_le_bytes_len(v: nat, n: nat)
    ensures
        le_bytes(v, n).len() == n,
    decreases n,
{
    if n > 0 {
        lemma_le_bytes_len(v / 256, (n - 1) as nat);
    }
}

/// What `n` bytes denote is below 256^n.
pub proof fn lemma_le_value_bound(s: Seq<u8>)
    ensures
        le_value(s) < byte_range(s.len()),
    decreases s.len(),
{
    if s.len() > 0 {
        lemma_le_value_bound(s.drop_first());
    }
}

/// Decoding the `n` low bytes of `v` gives `v` modulo 256^n.
pub proof fn lemma_le_round_trip(v: nat, n: nat)
    ensures
        le_value(le_bytes(v, n)) == v % byte_range(n),
    decreases n,
{
    if n == 0 {
    } else {
        let rest = le_bytes(v / 256, (n - 1) as nat);
        let s = le_bytes(v, n);
        assert(s.drop_first() =~= rest);
        lemma_le_round_trip(v / 256, (n - 1) as nat);
        let r = byte_range((n - 1) as nat);
        assert(r > 0) by {
            lemma_byte_range_positive((n - 1) as nat);
        }
        // v % (256 * r) == v % 256 + 256 * ((v / 256) % r)
        vstd::arithmetic::div_mod::lemma_breakdown(v as int, 256, r as int);
    }
}

/// 256^n is positive.
pub proof fn lemma_byte_range_positive(n: nat)
    ensures
        byte_range(n) > 0,
    decreases n,
{
    if n > 0 {
        lemma_byte_range_positive((n - 1) as nat);
    }
}

/// Decodes `width` bytes of `data` from `start` on.
pub fn le_decode(data: &Vec<u8>, start: usize, width: usize) -> (r: u64)
    requires
        width <= 8,
        start + width <= data@.len(),
    ensures
        r == le_value(data@.subrange(start as int, start + width)),
{
    let ghost bytes = data@.subrange(start as int, start + width);
    let total: usize = data.len();
    let mut acc: u64 = 0;
    let mut i: usize = width;
    proof {
        lemma_byte_ranges();
        assert(bytes.subrange(width as int, width as int) =~= Seq::<u8>::empty());
    }
    while i > 0
        invariant
            i <= width <= 8,
            start + width <= total == data@.len(),
            bytes == data@.subrange(start as int, start + width),
            acc == le_value(bytes.subrange(i as int, width as int)),
            acc < byte_range((width - i) as nat),
        decreases i,
    {
        i = i - 1;
        proof {
            lemma_byte_ranges();
            let hi = bytes.subrange(i as int, width as int);
            assert(hi.drop_first() =~= bytes.subrange(i + 1, width as int));
            assert(hi[0] == data@[start + i]);
        }
        acc = acc * 256 + data[start + i] as u64;
    }
    proof {
        assert(bytes.subrange(0, width as int) =~= bytes);
    }
    acc
}

/// Encodes the `width` low bytes of `v`.
pub fn le_encode(v: u64, width: usize) -> (out: Vec<u8>)
    requires
        width <= 8,
    ensures
        out@ == le_bytes(v as nat, width as nat),
        out@.len() == width,
{
    let mut out: Vec<u8> = Vec::new();
    let mut rest: u64 = v;
    let mut i: usize = 0;
    while i < width
        invariant
            i <= width,
            out@.len() == i,
            out@ + le_bytes(rest as nat, (width - i) as nat) == le_bytes(v as nat, width as nat),
        decreases width - i,
    {
        proof {
            let tail = le_bytes((rest / 256) as nat, (width - i - 1) as nat);
            assert(out@.push((rest % 256) as u8) + tail =~= out@ + (seq![(rest % 256) as u8] + tail));
        }
        out.push((rest % 256) as u8);
        rest = rest / 256;
        i = i + 1;
    }
    proof {
        assert(out@ + Seq::<u8>::empty() =~= out@);
        lemma_le_bytes_len(v as nat, width as nat);
    }
    out
}

/// `data` with the bytes from `offset` on replaced by `bytes`.
pub open spec fn write_bytes(data: Seq<u8>, offset: int, bytes: Seq<u8>) -> Seq<u8>
    recommends
        0 <= offset,
        offset + bytes.len() <= data.len(),
{
    data.subrange(0, offset) + bytes + data.subrange(offset + bytes.len(), data.len() as int)
}

/// Reading back where `bytes` was written gives `bytes`, and every byte
/// outside that region is as before.
pub proof fn lemma_write_then_read(data: Seq<u8>, offset: int, bytes: Seq<u8>)
    requires
        0 <= offset,
        offset + bytes.len() <= data.len(),
    ensures
        write_bytes(data, offset, bytes).len() == data.len(),
        write_bytes(data, offset, bytes).subrange(offset, offset + bytes.len()) == bytes,
        forall|i: int|
            0 <= i < data.len() && !(offset <= i < offset + bytes.len()) ==> write_bytes(
                data,
                offset,
                bytes,
            )[i] == data[i],
{
    assert(write_bytes(data, offset, bytes).subrange(offset, offset + bytes.len()) =~= bytes);
}

/// A linear memory: a whole number of pages of bytes, never more than its
/// maximum.
pub struct MemoryInstance {
    data: Vec<u8>,
    initial: usize,
    max: Option<usize>,
}

impl View for MemoryInstance {
    type V = Seq<u8>;

    closed spec fn view(&self) -> Seq<u8> {
        self.data@
    }
}

impl MemoryInstance {
    #[verifier::type_invariant]
    spec fn inv(self) -> bool {
        &&& self.data@.len() % (PAGE_SIZE as nat) == 0
        &&& self.data@.len() / (PAGE_SIZE as nat) <= MAX_PAGES
        &&& self.initial <= self.data@.len() / (PAGE_SIZE as nat)
        &&& self.max matches Some(m) ==> self.data@.len() / (PAGE_SIZE as nat) <= m
    }

    /// The most pages that the memory may grow to, if it has such a limit.
    pub closed spec fn max_pages(&self) -> Option<usize> {
        self.max
    }

    /// The number of pages that the memory was made with.
    pub closed spec fn min_pages(&self) -> usize {
        self.initial
    }

    /// The current number of pages.
    pub open spec fn pages(&self) -> nat {
        self@.len() / (PAGE_SIZE as nat)
    }

    /// The bounds that every memory keeps: a whole number of pages, at least
    /// the initial count, at most the maximum and at most `MAX_PAGES`.
    pub open spec fn within_limits(&self) -> bool {
        &&& self@.len() == self.pages() * PAGE_SIZE
        &&& self.min_pages() <= self.pages() <= MAX_PAGES
        &&& self.max_pages() matches Some(m) ==> self.pages() <= m
    }

    /// A zero-filled memory of `initial` pages.
    pub fn new(initial: usize, maximum: Option<usize>) -> (mem: MemoryInstance)
        requires
            initial <= MAX_PAGES,
            initial * PAGE_SIZE <= usize::MAX,
            maximum matches Some(m) ==> initial <= m,
        ensures
            mem@ == Seq::new((initial * PAGE_SIZE) as nat, |i: int| 0u8),
            mem.pages() == initial,
            mem.min_pages() == initial,
            mem.max_pages() == maximum,
    {
        let len: usize = initial * PAGE_SIZE;
        let data: Vec<u8> = vec![0u8; len];
        assert(data@ =~= Seq::new(len as nat, |i: int| 0u8));
        MemoryInstance { data, initial, max: maximum }
    }

    /// The length of the memory in bytes.
    pub fn data_len(&self) -> (len: usize)
        ensures
            len == self@.len(),
    {
        self.data.len()
    }

    /// The length of the memory in pages.
    pub fn page_count(&self) -> (pages: usize)
        ensures
            pages == self.pages(),
            self.within_limits(),
    {
        proof {
            use_type_invariant(self);
        }
        self.data.len() / PAGE_SIZE
    }

    /// The maximum number of pages, if the memory has one.
    pub fn max(&self) -> (max: Option<usize>)
        ensures
            max == self.max_pages(),
    {
        self.max
    }

    /// Whether `size` bytes from `offset` on lie inside the memory.
    pub open spec fn region_valid(&self, offset: usize, size: usize) -> bool {
        offset + size <= self@.len()
    }

    /// The error that an access of `size` bytes at `offset` outside the memory
    /// gives.
    pub open spec fn region_error(&self, offset: usize, size: usize) -> Error {
        if offset + size <= usize::MAX {
            Error::OutOfBounds(Some((offset + size) as usize), self@.len() as usize)
        } else {
            Error::OutOfBounds(None, self@.len() as usize)
        }
    }

    /// Checks that `size` bytes from `offset` on lie inside the memory.
    pub fn validate_region(&self, offset: usize, size: usize) -> (r: Result<(), Error>)
        ensures
            self.region_valid(offset, size) ==> r == Ok::<(), Error>(()),
            !self.region_valid(offset, size) ==> r == Err::<(), Error>(
                self.region_error(offset, size),
            ),
    {
        match offset.checked_add(size) {
            Some(end) => {
                if end > self.data.len() {
                    Err(Error::OutOfBounds(Some(end), self.data.len()))
                } else {
                    Ok(())
                }
            },
            None => Err(Error::OutOfBounds(None, self.data.len())),
        }
    }

    /// Writes `data` at `offset`, or fails and leaves the memory as it was.
    pub fn store(&mut self, offset: usize, data: &[u8]) -> (r: Result<(), Error>)
        ensures
            old(self).region_valid(offset, data@.len() as usize) ==> r == Ok::<(), Error>(())
                && final(self)@ == write_bytes(old(self)@, offset as int, data@),
            !old(self).region_valid(offset, data@.len() as usize) ==> r == Err::<(), Error>(
                old(self).region_error(offset, data@.len() as usize),
            ) && final(self)@ == old(self)@,
            final(self).max_pages() == old(self).max_pages(),
            final(self).min_pages() == old(self).min_pages(),
    {
        let n: usize = data.len();
        match self.validate_region(offset, n) {
            Err(e) => {
                return Err(e);
            },
            Ok(_) => {},
        }
        let mut i: usize = 0;
        while i < n
            invariant
                i <= n,
                n == data@.len(),
                offset + n <= old(self)@.len(),
                self.data@.len() == old(self).data@.len(),
                self.max == old(self).max,
                self.initial == old(self).initial,
                self.data@ =~= write_bytes(old(self)@, offset as int, data@.subrange(0, i as int)),
            decreases n - i,
        {
            proof {
                use_type_invariant(&*self);
            }
            self.data[offset + i] = data[i];
            i = i + 1;
        }
        proof {
            assert(data@.subrange(0, n as int) =~= data@);
        }
        Ok(())
    }

    /// The `size` bytes at `offset`.
    pub fn load(&self, offset: usize, size: usize) -> (r: Result<Vec<u8>, Error>)
        ensures
            self.region_valid(offset, size) ==> r is Ok && r->Ok_0@ == self@.subrange(
                offset as int,
                offset + size,
            ),
            !self.region_valid(offset, size) ==> r == Err::<Vec<u8>, Error>(
                self.region_error(offset, size),
            ),
    {
        match self.validate_region(offset, size) {
            Err(e) => {
                return Err(e);
            },
            Ok(_) => {},
        }
        let total: usize = self.data.len();
        let mut out: Vec<u8> = Vec::new();
        let mut i: usize = 0;
        while i < size
            invariant
                i <= size,
                offset + size <= total == self.data@.len(),
                out@ =~= self.data@.subrange(offset as int, offset + i),
            decreases size - i,
        {
            out.push(self.data[offset + i]);
            i = i + 1;
        }
        Ok(out)
    }

    /// The number that the `width` bytes at `offset` denote in little-endian
    /// order.
    pub fn load_le(&self, offset: usize, width: usize) -> (r: Result<u64, Error>)
        requires
            width <= 8,
        ensures
            self.region_valid(offset, width) ==> r == Ok::<u64, Error>(
                le_value(self@.subrange(offset as int, offset + width)) as u64,
            ),
            !self.region_valid(offset, width) ==> r == Err::<u64, Error>(
                self.region_error(offset, width),
            ),
    {
        match self.validate_region(offset, width) {
            Err(e) => {
                return Err(e);
            },
            Ok(_) => {},
        }
        Ok(le_decode(&self.data, offset, width))
    }

    /// Whether the memory can grow by `n` pages.
    pub open spec fn can_grow(&self, n: usize) -> bool {
        &&& self.pages() + n <= MAX_PAGES
        &&& self.max_pages() matches Some(m) ==> self.pages() + n <= m
        &&& (self.pages() + n) * PAGE_SIZE <= usize::MAX
    }

    /// The error of growing by `n` pages where the memory cannot: the number
    /// of pages asked for (as far as a `usize` holds it) and the first limit
    /// in the way, of `MAX_PAGES`, the memory's maximum and what a `usize` can
    /// address.
    pub open spec fn grow_error(&self, n: usize) -> Error {
        let pages = self.pages() + n;
        if pages > MAX_PAGES {
            Error::GrowError {
                pages: if pages <= usize::MAX {
                    pages as usize
                } else {
                    usize::MAX
                },
                limit: MAX_PAGES,
            }
        } else if self.max_pages() is Some && pages > self.max_pages()->Some_0 {
            Error::GrowError { pages: pages as usize, limit: self.max_pages()->Some_0 }
        } else {
            Error::GrowError { pages: pages as usize, limit: usize::MAX / PAGE_SIZE }
        }
    }

    /// Appends `n` zero-filled pages, or fails and leaves the memory as it was.
    pub fn grow(&mut self, n: usize) -> (r: Result<(), Error>)
        ensures
            old(self).can_grow(n) ==> r is Ok && final(self)@ == old(self)@ + Seq::new(
                (n * PAGE_SIZE) as nat,
                |i: int| 0u8,
            ) && final(self).pages() == old(self).pages() + n,
            !old(self).can_grow(n) ==> r == Err::<(), Error>(old(self).grow_error(n)) && final(self)@
                == old(self)@,
            final(self).max_pages() == old(self).max_pages(),
            final(self).min_pages() == old(self).min_pages(),
    {
        proof {
            use_type_invariant(&*self);
        }
        let pages: usize = self.data.len() / PAGE_SIZE;
        if n > MAX_PAGES - pages {
            return Err(Error::GrowError { pages: pages.saturating_add(n), limit: MAX_PAGES });
        }
        let len: usize = pages + n;
        match self.max {
            Some(m) => {
                if len > m {
                    return Err(Error::GrowError { pages: len, limit: m });
                }
            },
            None => {},
        }
        if len > usize::MAX / PAGE_SIZE {
            return Err(Error::GrowError { pages: len, limit: usize::MAX / PAGE_SIZE });
        }
        let new_len: usize = len * PAGE_SIZE;
        let ghost before = self.data@;
        let mut taken = MemoryInstance { data: Vec::new(), initial: 0, max: None };
        core::mem::swap(self, &mut taken);
        let MemoryInstance { data, initial, max } = taken;
        let mut data = data;
        data.resize(new_len, 0u8);
        proof {
            assert(data@ =~= before + Seq::new((n * PAGE_SIZE) as nat, |i: int| 0u8));
            assert(new_len as nat % (PAGE_SIZE as nat) == 0) by (nonlinear_arith)
                requires
                    new_len == len * PAGE_SIZE,
                    PAGE_SIZE == 65536,
            ;
            assert(new_len as nat / (PAGE_SIZE as nat) == len) by (nonlinear_arith)
                requires
                    new_len == len * PAGE_SIZE,
                    PAGE_SIZE == 65536,
            ;
        }
        *self = MemoryInstance { data, initial, max };
        Ok(())
    }
}

} // verus!
