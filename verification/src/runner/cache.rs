//! Sizes of the block cache on disk.

use vstd::prelude::*;

verus! {

pub const FOYER_DISK_BLOCK_ALIGNMENT: usize = 4_096;

pub const FOYER_MIN_DISK_BLOCK_SIZE: usize = 16_777_216;

pub const FOYER_MAX_DISK_PARTITIONS: usize = 512;

/// The disk holds less than one aligned block.
#[derive(Debug, Clone, Copy, PartialEq, Eq, Structural)]
pub struct DiskTooSmall;

/// The part of a capacity that whole aligned blocks can fill.
pub open spec fn aligned_capacity(capacity: int) -> int {
    capacity - capacity % FOYER_DISK_BLOCK_ALIGNMENT as int
}

/// A quotient rounded up.
pub open spec fn quotient_up(a: int, b: int) -> int {
    if a % b == 0 {
        a / b
    } else {
        a / b + 1
    }
}

/// The least aligned block size with which a capacity has no more than the allowed partitions.
pub open spec fn least_block_size(capacity: int) -> int {
    quotient_up(
        quotient_up(aligned_capacity(capacity), FOYER_MAX_DISK_PARTITIONS as int),
        FOYER_DISK_BLOCK_ALIGNMENT as int,
    ) * FOYER_DISK_BLOCK_ALIGNMENT
}

/// The block size for a capacity: large enough for the partition limit and the least block size,
/// but no larger than the capacity.
pub open spec fn block_size(capacity: int) -> int {
    let least = if least_block_size(capacity) > FOYER_MIN_DISK_BLOCK_SIZE {
        least_block_size(capacity)
    } else {
        FOYER_MIN_DISK_BLOCK_SIZE as int
    };
    if least < aligned_capacity(capacity) {
        least
    } else {
        aligned_capacity(capacity)
    }
}

fn divided_up(a: usize, b: usize) -> (r: usize)
    requires
        b > 1,
    ensures
        r == quotient_up(a as int, b as int),
{
    proof {
        assert(a / b < usize::MAX) by (nonlinear_arith)
            requires
                b > 1,
        ;
    }
    if a % b == 0 {
        a / b
    } else {
        a / b + 1
    }
}

/// Chooses the block size for a disk capacity.
pub fn foyer_disk_block_size(disk_capacity: usize) -> (r: Result<usize, DiskTooSmall>)
    ensures
        r is Err <==> disk_capacity < FOYER_DISK_BLOCK_ALIGNMENT,
        r matches Ok(size) ==> size == block_size(disk_capacity as int),
{
    let aligned: usize = disk_capacity - disk_capacity % FOYER_DISK_BLOCK_ALIGNMENT;
    if aligned == 0 {
        return Err(DiskTooSmall);
    }
    let minimum: usize = divided_up(aligned, FOYER_MAX_DISK_PARTITIONS);
    let blocks: usize = divided_up(minimum, FOYER_DISK_BLOCK_ALIGNMENT);
    proof {
        block_sizes_fit(disk_capacity as int);
    }
    let least: usize = blocks * FOYER_DISK_BLOCK_ALIGNMENT;
    let wanted: usize = if least > FOYER_MIN_DISK_BLOCK_SIZE {
        least
    } else {
        FOYER_MIN_DISK_BLOCK_SIZE
    };
    if wanted < aligned {
        Ok(wanted)
    } else {
        Ok(aligned)
    }
}

proof fn block_sizes_fit(capacity: int)
    requires
        capacity >= FOYER_DISK_BLOCK_ALIGNMENT,
    ensures
        0 < least_block_size(capacity) <= aligned_capacity(capacity),
        least_block_size(capacity) % FOYER_DISK_BLOCK_ALIGNMENT as int == 0,
        aligned_capacity(capacity) % FOYER_DISK_BLOCK_ALIGNMENT as int == 0,
        aligned_capacity(capacity) <= least_block_size(capacity) * FOYER_MAX_DISK_PARTITIONS,
{
    let aligned = aligned_capacity(capacity);
    let blocks = aligned / 4096;
    assert(aligned == blocks * 4096);
    let per_partition = quotient_up(aligned, 512);
    assert(aligned % 512 == 0);
    assert(per_partition == blocks * 8);
    let rounded = quotient_up(per_partition, 4096);
    assert(rounded * 4096 >= per_partition);
    assert(rounded <= blocks);
}

/// Block sizes are aligned, positive and no larger than the disk, and divide it into no more than
/// the allowed partitions.
pub proof fn block_sizes_respect_the_device(capacity: int)
    requires
        capacity >= FOYER_DISK_BLOCK_ALIGNMENT,
    ensures
        0 < block_size(capacity) <= capacity,
        block_size(capacity) % FOYER_DISK_BLOCK_ALIGNMENT as int == 0,
        1 <= aligned_capacity(capacity) / block_size(capacity) <= FOYER_MAX_DISK_PARTITIONS,
{
    block_sizes_fit(capacity);
    let size = block_size(capacity);
    let aligned = aligned_capacity(capacity);
    assert(least_block_size(capacity) <= size);
    assert(aligned <= size * 512);
    assert(aligned / size <= 512) by (nonlinear_arith)
        requires
            size > 0,
            aligned <= size * 512,
    ;
    assert(aligned / size >= 1) by (nonlinear_arith)
        requires
            size > 0,
            aligned >= size,
    ;
}

/// Blocks of the cache have at least 16 MiB where the device has, and no more than that where 512
/// of them hold the whole device.
pub proof fn block_sizes_are_moderate(capacity: int)
    requires
        capacity >= 4_096,
    ensures
        capacity >= 16_777_216 ==> block_size(capacity) >= 16_777_216,
        16_777_216 <= capacity <= 8_589_934_592 ==> block_size(capacity) == 16_777_216,
        capacity < 16_777_216 ==> block_size(capacity) == capacity - capacity % 4_096,
{
}

} // verus!
