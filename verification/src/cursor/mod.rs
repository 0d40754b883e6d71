//! A cursor over a run of bytes: it keeps a position, hands out the bytes
//! that follow it as borrowed slices, and never reads past its length.
use vstd::prelude::*;
use vstd::slice::slice_subrange;
use memmap2::{Mmap, MmapMut};
use std::ops::Range;
use crate::mapping::{mmap_bytes, mmap_mut_bytes, mmap_mut_slice, mmap_slice};

pub mod error;

pub use error::CursorError;

verus! {

/// Where the bytes of a cursor live.
#[derive(Debug)]
pub enum CursorData<'a> {
    /// A plain slice.
    Raw(&'a [u8]),
    /// A read-only memory map.
    Mmap(&'a Mmap),
    /// A writable memory map, which the cursor only reads.
    MmapMut(&'a MmapMut),
}

impl<'a> View for CursorData<'a> {
    type V = Seq<u8>;

    open spec fn view(&self) -> Seq<u8> {
        match *self {
            CursorData::Raw(data) => data@,
            CursorData::Mmap(map) => mmap_bytes(map),
            CursorData::MmapMut(map) => mmap_mut_bytes(map),
        }
    }
}

impl<'a> CursorData<'a> {
    /// All bytes of the source, borrowed for as long as the source is.
    pub fn bytes(&self) -> (all: &'a [u8])
        ensures
            all@ == self@,
    {
        match *self {
            CursorData::Raw(data) => data,
            CursorData::Mmap(map) => mmap_slice(map),
            CursorData::MmapMut(map) => mmap_mut_slice(map),
        }
    }
}

/// A position in a run of bytes.
///
/// `len` is the number of bytes the cursor may hand out: the length of its
/// source, which is what [`Cursor::wf`] says and what the constructors set.
#[derive(Debug)]
pub struct Cursor<'a> {
    pub data: CursorData<'a>,
    pub position: usize,
    pub last_consumed_size: usize,
    pub len: usize,
    pub starting_pos: Option<usize>,
}

impl<'a> Cursor<'a> {
    /// The bytes of the source, from its first to its last.
    pub open spec fn source(&self) -> Seq<u8> {
        self.data@
    }

    /// The cursor's length is that of its source.
    pub open spec fn wf(&self) -> bool {
        self.len == self.source().len()
    }

    /// The cursor at position 0 of `bytes`, with nothing consumed and no
    /// starting position set.
    pub open spec fn starts_over(&self, bytes: Seq<u8>) -> bool {
        &&& self.source() == bytes
        &&& self.position == 0
        &&& self.len == bytes.len()
        &&& self.starting_pos == None::<usize>
        &&& self.last_consumed_size == 0
    }

    /// Whether `size` more bytes can be had from the current position.
    pub open spec fn has(&self, size: usize) -> bool {
        self.position + size <= self.len
    }

    /// The `size` bytes that follow the current position.
    pub open spec fn ahead(&self, size: usize) -> Seq<u8> {
        self.source().subrange(self.position as int, self.position + size)
    }

    /// A cursor over a slice.
    pub fn raw(data: &'a [u8]) -> (cursor: Self)
        ensures
            cursor.data == CursorData::Raw(data),
            cursor.starts_over(data@),
    {
        Cursor {
            data: CursorData::Raw(data),
            position: 0,
            len: data.len(),
            starting_pos: None,
            last_consumed_size: 0,
        }
    }

    /// A cursor over a read-only memory map.
    pub fn mmap(data: &'a Mmap) -> (cursor: Self)
        ensures
            cursor.data == CursorData::Mmap(data),
            cursor.starts_over(mmap_bytes(data)),
    {
        let len = mmap_slice(data).len();
        Cursor {
            data: CursorData::Mmap(data),
            position: 0,
            len,
            starting_pos: None,
            last_consumed_size: 0,
        }
    }

    /// A cursor over a writable memory map. The map stays borrowed, and
    /// unchanged, for as long as the cursor or a slice from it is in use.
    pub fn mmap_mut(data: &'a MmapMut) -> (cursor: Self)
        ensures
            cursor.data == CursorData::MmapMut(data),
            cursor.starts_over(mmap_mut_bytes(data)),
    {
        let len = mmap_mut_slice(data).len();
        Cursor {
            data: CursorData::MmapMut(data),
            position: 0,
            len,
            starting_pos: None,
            last_consumed_size: 0,
        }
    }

    /// The same cursor, moved to `pos`, with `pos` as the place that
    /// [`Cursor::reset`] goes back to.
    pub fn set_starting_pos(self, pos: usize) -> (cursor: Self)
        ensures
            cursor == (Cursor { starting_pos: Some(pos), position: pos, ..self }),
    {
        let mut cursor = self;
        cursor.starting_pos = Some(pos);
        cursor.position = pos;
        cursor
    }

    /// A cursor over a slice; the same as [`Cursor::raw`].
    pub fn new(data: &'a [u8]) -> (cursor: Self)
        ensures
            cursor.data == CursorData::Raw(data),
            cursor.starts_over(data@),
    {
        Self::raw(data)
    }

    /// The bytes of the source from `range.start` up to `range.end`,
    /// wherever the cursor stands.
    pub fn get_range(&self, range: Range<usize>) -> (bytes: &'a [u8])
        requires
            range.start <= range.end <= self.source().len(),
        ensures
            bytes@ == self.source().subrange(range.start as int, range.end as int),
    {
        slice_subrange(self.data.bytes(), range.start, range.end)
    }

    /// The next `size` bytes, without moving. Fails exactly when they would
    /// end past `len`.
    pub fn peek(&self, size: usize) -> (found: Result<&'a [u8], CursorError>)
        requires
            self.wf(),
        ensures
            self.has(size) ==> found is Ok && found->Ok_0@ == self.ahead(size),
            !self.has(size) ==> found == Err::<&[u8], CursorError>(CursorError::InvalidRange),
    {
        if self.position > self.len || size > self.len - self.position {
            return Err(CursorError::InvalidRange);
        }
        let range = self.position..(self.position + size);

        Ok(self.get_range(range))
    }

    /// The next `size` bytes, moving past them. On failure the cursor is
    /// left as it was.
    pub fn consume(&mut self, size: usize) -> (found: Result<&'a [u8], CursorError>)
        requires
            old(self).wf(),
        ensures
            old(self).has(size) ==> {
                &&& found is Ok
                &&& found->Ok_0@ == old(self).ahead(size)
                &&& *final(self) == (Cursor {
                    position: (old(self).position + size) as usize,
                    last_consumed_size: size,
                    ..*old(self)
                })
            },
            !old(self).has(size) ==> {
                &&& found == Err::<&[u8], CursorError>(CursorError::InvalidRange)
                &&& *final(self) == *old(self)
            },
    {
        match self.peek(size) {
            Ok(data) => {
                self.position += size;
                self.last_consumed_size = size;
                Ok(data)
            },
            Err(e) => Err(e),
        }
    }

    /// Moves `steps` bytes back. The caller keeps the position from going
    /// below zero.
    pub fn set_back(&mut self, steps: usize)
        requires
            steps <= old(self).position,
        ensures
            *final(self) == (Cursor { position: (old(self).position - steps) as usize, ..*old(self) }),
    {
        self.position = self.position - steps;
    }

    /// Moves `steps` bytes on, also past `len`. The caller keeps the
    /// position within `usize`.
    pub fn forward(&mut self, steps: usize)
        requires
            old(self).position + steps <= usize::MAX,
        ensures
            *final(self) == (Cursor { position: (old(self).position + steps) as usize, ..*old(self) }),
    {
        self.position = self.position + steps;
    }

    /// Moves to `pos`, wherever that is.
    pub fn move_to(&mut self, pos: usize)
        ensures
            *final(self) == (Cursor { position: pos, ..*old(self) }),
    {
        self.position = pos;
    }

    /// Goes back to the starting position, or to 0 where none was set, and
    /// forgets the size of the last consume.
    pub fn reset(&mut self)
        ensures
            *final(self) == (Cursor {
                position: match old(self).starting_pos {
                    Some(pos) => pos,
                    None => 0,
                },
                last_consumed_size: 0,
                ..*old(self)
            }),
    {
        self.last_consumed_size = 0;
        self.position = match self.starting_pos {
            Some(pos) => pos,
            None => 0,
        };
    }

    /// Whether the position is at or past `len`.
    pub fn is_eof(&self) -> (eof: bool)
        ensures
            eof == (self.position >= self.len),
    {
        self.position >= self.len
    }
}

} // verus!
