//! Views into GPU buffers: which byte range of a buffer a typed view covers.
use vstd::prelude::*;

verus! {

/// Why a view of a buffer cannot be made.
#[derive(Clone, Copy, PartialEq, Eq, Structural, Debug)]
pub enum ViewError {
    /// The view is larger than the buffer.
    SizeExceeded { size: u64, buffer_size: u64 },
    /// The view starts past the end of the buffer.
    OffsetExceeded { offset: u64, buffer_size: u64 },
    /// The view ends past the end of the buffer.
    PastEnd { offset: u64, size: u64, buffer_size: u64 },
    /// The buffer's memory is not mapped to the host.
    NotMapped,
}

/// A byte range of a buffer.
#[derive(Clone, Copy, PartialEq, Eq, Structural, Debug)]
pub struct BufferRange {
    pub offset: u64,
    pub size: u64,
}

/// The whole of a buffer of `buffer_size` bytes.
pub fn whole_view(buffer_size: u64) -> (r: BufferRange)
    ensures
        r == (BufferRange { offset: 0, size: buffer_size }),
{
    BufferRange { offset: 0, size: buffer_size }
}

/// The byte range of `count` elements of `type_size` bytes starting at
/// element `offset`, in a buffer of `buffer_size` bytes: an error if the
/// size exceeds the buffer, else if the offset does, else if the range
/// ends past the buffer.
pub fn view_range(buffer_size: u64, type_size: usize, offset: usize, count: usize) -> (r: Result<BufferRange, ViewError>)
    requires
        offset * type_size <= u64::MAX,
        count * type_size <= u64::MAX,
        offset * type_size <= usize::MAX,
        count * type_size <= usize::MAX,
        offset * type_size + count * type_size <= usize::MAX,
    ensures
        ({
            let o = offset * type_size;
            let s = count * type_size;
            r == if s > buffer_size {
                Err::<BufferRange, ViewError>(ViewError::SizeExceeded { size: s as u64, buffer_size })
            } else if o > buffer_size {
                Err(ViewError::OffsetExceeded { offset: o as u64, buffer_size })
            } else if o + s > buffer_size {
                Err(ViewError::PastEnd { offset: o as u64, size: s as u64, buffer_size })
            } else {
                Ok(BufferRange { offset: o as u64, size: s as u64 })
            }
        }),
{
    let offset_bytes = offset * type_size;
    let size = count * type_size;
    if size as u64 > buffer_size {
        return Err(ViewError::SizeExceeded { size: size as u64, buffer_size });
    }
    if offset_bytes as u64 > buffer_size {
        return Err(ViewError::OffsetExceeded { offset: offset_bytes as u64, buffer_size });
    }
    if (offset_bytes + size) as u64 > buffer_size {
        return Err(ViewError::PastEnd { offset: offset_bytes as u64, size: size as u64, buffer_size });
    }
    Ok(BufferRange { offset: offset_bytes as u64, size: size as u64 })
}

/// How many elements of `type_size` bytes a mapped view of `range` holds:
/// an error if the buffer is not mapped.
pub fn mapped_element_count(mapped: bool, range: BufferRange, type_size: usize) -> (r: Result<u64, ViewError>)
    requires
        type_size > 0,
    ensures
        r == if mapped {
            Ok::<u64, ViewError>((range.size / type_size as u64) as u64)
        } else {
            Err(ViewError::NotMapped)
        },
{
    if !mapped {
        return Err(ViewError::NotMapped);
    }
    Ok(range.size / type_size as u64)
}

} // verus!
