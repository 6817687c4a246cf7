//! How a file is cut into one byte range per connection.
//!
//! Ranges are those of HTTP: both ends belong to the range, and a range whose end lies before
//! its start is empty.
use vstd::arithmetic::div_mod::lemma_fundamental_div_mod;
use vstd::prelude::*;

verus! {

/// The length of all ranges but the first and the last.
pub open spec fn block_size(size: int, count: int) -> int {
    size / count
}

/// Where connection `i` of `count` starts in a file of `size` bytes.
pub open spec fn block_start(size: int, count: int, i: int) -> int {
    if i == 0 {
        0
    } else {
        i * block_size(size, count) + 1
    }
}

/// The last byte of connection `i` of `count` in a file of `size` bytes.
pub open spec fn block_end(size: int, count: int, i: int) -> int {
    if i == count - 1 {
        size - 1
    } else {
        (i + 1) * block_size(size, count)
    }
}

/// `byte` belongs to connection `i`.
pub open spec fn in_block(size: int, count: int, i: int, byte: int) -> bool {
    block_start(size, count, i) <= byte <= block_end(size, count, i)
}

/// The range of a connection: its first and its last byte.
pub fn block(size: u64, count: u32, i: u32) -> (r: (u64, u64))
    requires
        0 < size,
        i < count,
    ensures
        r.0 == block_start(size as int, count as int, i as int),
        r.1 == block_end(size as int, count as int, i as int),
{
    let step: u64 = size / count as u64;
    proof {
        block_bounds(size as int, count as int, i as int);
    }
    let start: u64 = if i == 0 {
        0
    } else {
        i as u64 * step + 1
    };
    let end: u64 = if i == count - 1 {
        size - 1
    } else {
        (i + 1) as u64 * step
    };
    (start, end)
}

/// The blocks before the last one end inside the file.
pub proof fn block_bounds(size: int, count: int, i: int)
    requires
        0 < size,
        0 <= i < count,
    ensures
        0 <= block_size(size, count),
        0 <= i * block_size(size, count) < size,
        0 <= (i + 1) * block_size(size, count) <= size,
        i + 1 < count ==> (i + 1) * block_size(size, count) < size || block_size(size, count) == 0,
{
    let step = block_size(size, count);
    lemma_fundamental_div_mod(size, count);
    assert(0 <= step) by (nonlinear_arith)
        requires
            step == size / count,
            0 < size,
            0 < count,
    ;
    assert(0 <= i * step && 0 <= (i + 1) * step && (i + 1) * step <= count * step) by (nonlinear_arith)
        requires
            0 <= i < count,
            0 <= step,
    ;
    assert(count * step <= size) by (nonlinear_arith)
        requires
            size == count * step + size % count,
            0 < count,
    ;
    assert((i + 1) * step == i * step + step) by (nonlinear_arith);
    if i + 1 < count {
        assert((i + 2) * step <= count * step) by (nonlinear_arith)
            requires
                i + 2 <= count,
                0 <= step,
        ;
        assert((i + 2) * step == (i + 1) * step + step) by (nonlinear_arith);
    }
}

/// Every block stays inside the file.
pub proof fn blocks_inside_file(size: int, count: int, i: int)
    requires
        0 < size,
        0 <= i < count,
    ensures
        0 <= block_start(size, count, i) <= size,
        0 <= block_end(size, count, i) < size,
{
    block_bounds(size, count, i);
}

/// No byte belongs to two connections.
pub proof fn blocks_disjoint(size: int, count: int, i: int, j: int, byte: int)
    requires
        0 < size,
        0 <= i < count,
        0 <= j < count,
        in_block(size, count, i, byte),
        in_block(size, count, j, byte),
    ensures
        i == j,
{
    if i < j {
        blocks_in_order(size, count, i, j);
    } else if j < i {
        blocks_in_order(size, count, j, i);
    }
}

/// A connection ends before the next one starts.
pub proof fn blocks_in_order(size: int, count: int, i: int, j: int)
    requires
        0 < size,
        0 <= i < j < count,
    ensures
        block_end(size, count, i) < block_start(size, count, j),
{
    let step = block_size(size, count);
    block_bounds(size, count, i);
    assert((i + 1) * step <= j * step) by (nonlinear_arith)
        requires
            i + 1 <= j,
            0 <= step,
    ;
}

/// Every byte of the file belongs to a connection: the one that is returned.
pub proof fn blocks_cover_file(size: int, count: int, byte: int) -> (i: int)
    requires
        0 < count,
        0 <= byte < size,
    ensures
        0 <= i < count,
        in_block(size, count, i, byte),
{
    let step = block_size(size, count);
    block_bounds(size, count, 0);
    if byte == 0 {
        0
    } else if step == 0 {
        let last = count - 1;
        assert(last * step == 0) by (nonlinear_arith)
            requires
                step == 0,
        ;
        last
    } else {
        let k = (byte - 1) / step;
        lemma_fundamental_div_mod(byte - 1, step);
        assert(0 <= k && k * step <= byte - 1 && byte - 1 < (k + 1) * step) by (nonlinear_arith)
            requires
                byte - 1 == step * k + (byte - 1) % step,
                0 <= (byte - 1) % step < step,
                0 < step,
                1 <= byte,
        ;
        if k < count - 1 {
            k
        } else {
            let last = count - 1;
            assert(last * step <= k * step) by (nonlinear_arith)
                requires
                    last <= k,
                    0 < step,
            ;
            last
        }
    }
}

} // verus!
