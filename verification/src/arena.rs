//! Growable GPU buffer arenas.
//!
//! A [`BufferArena`] hands out byte ranges of one growable buffer for
//! immediate writing.  When a request does not fit into the current buffer,
//! the arena switches to a fresh buffer of doubled capacity and restarts its
//! write cursor at zero.  The replaced buffer is not destroyed: draw groups
//! recorded earlier in the frame keep referring to it by identity, so the
//! arena only forgets it.  Buffers are modelled by [`BufferHandle`]: a stable
//! numeric identity (`generation`) plus the byte capacity the buffer was
//! created with.

use vstd::prelude::*;

use crate::ui::UiError;

verus! {

/// Byte size of the first vertex buffer an arena creates.
pub const VERTEX_BUFFER_INITIAL_SIZE: u64 = 1024;

/// Byte size of the first index buffer an arena creates.
pub const INDEX_BUFFER_INITIAL_SIZE: u64 = 1024;

/// Largest buffer capacity the engine ever asks of the device (4 GiB).
/// Growth past this limit is reported as an allocation failure.
pub const BUFFER_CAPACITY_LIMIT: u64 = 0x1_0000_0000;

/// Identity and size of one GPU buffer.
///
/// The `generation` number stands for the identity of the underlying buffer
/// object: two handles refer to the same buffer exactly when their
/// generations are equal.  A fresh buffer gets a generation strictly greater
/// than every buffer the same arena handed out before.
#[derive(Clone, Copy, PartialEq, Eq, Structural, Debug)]
pub struct BufferHandle {
    pub generation: u64,
    pub capacity: u64,
}

/// A bump allocator over one growable buffer.
#[derive(Clone, Copy, Debug)]
pub struct BufferArena {
    /// The buffer currently written to, or `None` before the first request.
    pub buffer: Option<BufferHandle>,
    /// Next free byte offset into the current buffer.
    pub cursor: u64,
    /// Capacity used for the first buffer this arena creates.
    pub initial_size: u64,
}

impl BufferArena {
    /// Generation of the current buffer; 0 while no buffer exists.
    pub open spec fn generation(self) -> int {
        match self.buffer {
            None => 0,
            Some(b) => b.generation as int,
        }
    }

    /// Capacity of the current buffer; 0 while no buffer exists.
    pub open spec fn capacity(self) -> int {
        match self.buffer {
            None => 0,
            Some(b) => b.capacity as int,
        }
    }

    /// Basic consistency: the cursor stays inside the current buffer and
    /// capacities stay within what the device can allocate.
    pub open spec fn wf(self) -> bool {
        &&& 1 <= self.initial_size <= BUFFER_CAPACITY_LIMIT
        &&& match self.buffer {
            None => self.cursor == 0,
            Some(b) => {
                &&& self.cursor <= b.capacity
                &&& b.capacity <= BUFFER_CAPACITY_LIMIT
                &&& b.generation >= 1
            },
        }
    }

    /// Whether a request of `bytes` fits into the current buffer.
    pub open spec fn spec_fits(self, bytes: u64) -> bool {
        self.buffer matches Some(b) && self.cursor + bytes <= b.capacity
    }

    /// Capacity of the buffer a growth step would create:
    /// `max(2 * capacity, initial_size)`.
    pub open spec fn spec_grown_capacity(self) -> int {
        if 2 * self.capacity() > self.initial_size {
            2 * self.capacity()
        } else {
            self.initial_size as int
        }
    }

    /// The exact effect of [`BufferArena::request`]: the successor arena
    /// state paired with the byte offset handed out, or an allocation
    /// failure leaving the arena unchanged.
    pub open spec fn spec_request(self, bytes: u64) -> (BufferArena, Result<u64, UiError>) {
        if self.spec_fits(bytes) {
            (
                BufferArena { cursor: (self.cursor + bytes) as u64, ..self },
                Ok(self.cursor),
            )
        } else if self.spec_grown_capacity() > BUFFER_CAPACITY_LIMIT || self.generation()
            == u64::MAX {
            (self, Err(UiError::AllocationFailure))
        } else {
            (
                BufferArena {
                    buffer: Some(
                        BufferHandle {
                            generation: (self.generation() + 1) as u64,
                            capacity: self.spec_grown_capacity() as u64,
                        },
                    ),
                    cursor: bytes,
                    ..self
                },
                Ok(0),
            )
        }
    }

    /// A fresh arena that will create its first buffer with `initial_size`
    /// bytes on the first request.
    pub fn new(initial_size: u64) -> (r: BufferArena)
        requires
            1 <= initial_size <= BUFFER_CAPACITY_LIMIT,
        ensures
            r == (BufferArena { buffer: None, cursor: 0, initial_size }),
            r.wf(),
    {
        BufferArena { buffer: None, cursor: 0, initial_size }
    }

    /// Restart the cursor for a new frame, keeping the current buffer (and
    /// its capacity) when one exists.
    pub fn reset(&mut self)
        ensures
            *final(self) == (BufferArena { cursor: 0, ..*old(self) }),
            old(self).wf() ==> final(self).wf(),
    {
        self.cursor = 0;
    }

    /// Hand out a byte range of `bytes` bytes, growing the buffer when the
    /// request does not fit.  On success the returned offset is a valid
    /// write position of the current buffer: `offset + bytes` is at most its
    /// capacity.
    pub fn request(&mut self, bytes: u64) -> (r: Result<u64, UiError>)
        requires
            old(self).wf(),
            bytes <= old(self).initial_size,
        ensures
            (*final(self), r) == old(self).spec_request(bytes),
            final(self).wf(),
            r matches Ok(offset) ==> {
                &&& final(self).buffer matches Some(b)
                &&& offset + bytes <= b.capacity
                &&& offset + bytes == final(self).cursor
            },
    {
        match self.buffer {
            Some(b) if bytes <= b.capacity - self.cursor => {
                let offset = self.cursor;
                self.cursor = self.cursor + bytes;
                Ok(offset)
            },
            _ => {
                let doubled: u64 = match self.buffer {
                    Some(b) => {
                        if b.generation == u64::MAX {
                            return Err(UiError::AllocationFailure);
                        }
                        2 * b.capacity
                    },
                    None => 0,
                };
                let new_capacity: u64 = if doubled > self.initial_size {
                    doubled
                } else {
                    self.initial_size
                };
                if new_capacity > BUFFER_CAPACITY_LIMIT {
                    return Err(UiError::AllocationFailure);
                }
                let new_generation: u64 = match self.buffer {
                    Some(b) => b.generation + 1,
                    None => 1,
                };
                self.buffer = Some(
                    BufferHandle { generation: new_generation, capacity: new_capacity },
                );
                self.cursor = bytes;
                Ok(0)
            },
        }
    }
}

} // verus!
