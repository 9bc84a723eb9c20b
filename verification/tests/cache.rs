use slatedb_benchmark::runner::cache::{foyer_disk_block_size, FOYER_MAX_DISK_PARTITIONS};

#[test]
fn foyer_disk_block_size_limits_full_cache_partitions() {
    let capacity = 40 * 1024 * 1024 * 1024;
    let block_size = foyer_disk_block_size(capacity).expect("block size");

    assert_eq!(block_size, 80 * 1024 * 1024);
    assert_eq!(capacity / block_size, FOYER_MAX_DISK_PARTITIONS);
}

#[test]
fn foyer_disk_block_size_uses_one_block_for_minimum_scaled_cache() {
    let capacity = 16 * 1024 * 1024;
    let block_size = foyer_disk_block_size(capacity).expect("block size");

    assert_eq!(block_size, capacity);
    assert_eq!(capacity / block_size, 1);
}
