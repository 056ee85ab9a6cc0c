//! Tables of function addresses.

use vstd::prelude::*;
use crate::address::FuncAddr;

verus! {

/// Why a table access failed.
#[derive(Clone, Copy, Debug, PartialEq, Eq, Structural)]
pub enum Error {
    /// The index asked for (`None` when it does not fit a `usize`) and the
    /// length of the table.
    AccessOutOfBounds(Option<usize>, usize),
    /// The slot holds no function.
    UninitializedElement(usize),
}

/// A table that a module defines: slots that each hold a function address or
/// nothing.
pub struct DefinedTableInstance {
    buffer: Vec<Option<FuncAddr>>,
    max: Option<usize>,
}

impl View for DefinedTableInstance {
    type V = Seq<Option<FuncAddr>>;

    closed spec fn view(&self) -> Seq<Option<FuncAddr>> {
        self.buffer@
    }
}

/// `buffer` with the slots from `offset` on set to the functions of `data`.
pub open spec fn initialized(buffer: Seq<Option<FuncAddr>>, offset: int, data: Seq<FuncAddr>) -> Seq<
    Option<FuncAddr>,
> {
    Seq::new(
        buffer.len(),
        |i: int|
            if offset <= i < offset + data.len() {
                Some(data[i - offset])
            } else {
                buffer[i]
            },
    )
}

impl DefinedTableInstance {
    /// The most slots that the table may have, if it has such a limit.
    pub closed spec fn max_len(&self) -> Option<usize> {
        self.max
    }

    /// A table of `initial` empty slots.
    pub fn new(initial: usize, maximum: Option<usize>) -> (table: DefinedTableInstance)
        ensures
            table@ == Seq::new(initial as nat, |i: int| None::<FuncAddr>),
            table.max_len() == maximum,
    {
        let mut buffer: Vec<Option<FuncAddr>> = Vec::new();
        let mut i: usize = 0;
        while i < initial
            invariant
                i <= initial,
                buffer@ =~= Seq::new(i as nat, |j: int| None::<FuncAddr>),
            decreases initial - i,
        {
            buffer.push(None);
            i = i + 1;
        }
        DefinedTableInstance { buffer, max: maximum }
    }

    /// Sets the slots from `offset` on to the functions of `data`, or fails
    /// and leaves the table as it was when they do not all fit.
    pub fn initialize(&mut self, offset: usize, data: Vec<FuncAddr>) -> (r: Result<(), Error>)
        ensures
            final(self).max_len() == old(self).max_len(),
            offset + data@.len() <= old(self)@.len() ==> r == Ok::<(), Error>(()) && final(self)@
                == initialized(old(self)@, offset as int, data@),
            offset + data@.len() > old(self)@.len() ==> final(self)@ == old(self)@ && r == Err::<
                (),
                Error,
            >(
                Error::AccessOutOfBounds(
                    if offset + data@.len() <= usize::MAX {
                        Some((offset + data@.len()) as usize)
                    } else {
                        None
                    },
                    old(self)@.len() as usize,
                ),
            ),
    {
        let n: usize = data.len();
        match offset.checked_add(n) {
            Some(max_addr) => {
                if max_addr > self.buffer_len() {
                    return Err(Error::AccessOutOfBounds(Some(max_addr), self.buffer_len()));
                }
            },
            None => {
                return Err(Error::AccessOutOfBounds(None, self.buffer_len()));
            },
        }
        let total: usize = self.buffer.len();
        let mut index: usize = 0;
        while index < n
            invariant
                index <= n == data@.len(),
                offset + n <= total == self.buffer@.len() == old(self).buffer@.len(),
                self.max == old(self).max,
                self.buffer@ =~= initialized(old(self)@, offset as int, data@.subrange(0, index as int)),
            decreases n - index,
        {
            self.buffer[offset + index] = Some(data[index]);
            index = index + 1;
        }
        proof {
            assert(data@.subrange(0, n as int) =~= data@);
        }
        Ok(())
    }

    /// The number of slots.
    pub fn buffer_len(&self) -> (len: usize)
        ensures
            len == self@.len(),
    {
        self.buffer.len()
    }

    /// The function in slot `index`.
    pub fn get_at(&self, index: usize) -> (r: Result<FuncAddr, Error>)
        ensures
            r == table_get(self@, index),
    {
        if index < self.buffer.len() {
            match self.buffer[index] {
                Some(addr) => Ok(addr),
                None => Err(Error::UninitializedElement(index)),
            }
        } else {
            Err(Error::AccessOutOfBounds(Some(index), self.buffer.len()))
        }
    }
}

/// What reading slot `index` of a table gives: its function, or
/// `UninitializedElement` for an empty slot, or `AccessOutOfBounds` past the
/// end.
pub open spec fn table_get(buffer: Seq<Option<FuncAddr>>, index: usize) -> Result<FuncAddr, Error> {
    if index < buffer.len() {
        match buffer[index as int] {
            Some(addr) => Ok(addr),
            None => Err(Error::UninitializedElement(index)),
        }
    } else {
        Err(Error::AccessOutOfBounds(Some(index), buffer.len() as usize))
    }
}

} // verus!
