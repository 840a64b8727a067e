use tgcloud::chunking::plan_chunks;
use tgcloud::CHUNK_SIZE;

#[test]
fn empty_file_plans_one_zero_length_chunk() {
    let plan = plan_chunks(0, CHUNK_SIZE);
    assert_eq!(plan.len(), 1);
    assert_eq!(plan[0].index, 0);
    assert_eq!(plan[0].offset, 0);
    assert_eq!(plan[0].size, 0);
}

#[test]
fn exactly_chunk_size_plans_single_chunk() {
    let plan = plan_chunks(CHUNK_SIZE, CHUNK_SIZE);
    assert_eq!(plan.len(), 1);
    assert_eq!(plan[0].size, CHUNK_SIZE);
}

#[test]
fn chunk_size_plus_one_plans_two_chunks() {
    let plan = plan_chunks(CHUNK_SIZE + 1, CHUNK_SIZE);
    assert_eq!(plan.len(), 2);
    assert_eq!(plan[0].size, CHUNK_SIZE);
    assert_eq!(plan[1].size, 1);
    assert_eq!(plan[1].offset, CHUNK_SIZE);
}

#[test]
fn hundred_mib_fits_one_chunk() {
    let plan = plan_chunks(104_857_600, CHUNK_SIZE);
    assert_eq!(plan.len(), 1);
    assert_eq!(plan[0].size, 104_857_600);
}

#[test]
fn six_hundred_mib_takes_three_chunks() {
    let size: u64 = 600 * 1024 * 1024;
    let plan = plan_chunks(size, CHUNK_SIZE);
    assert_eq!(plan.len(), 3);
    let total: u64 = plan.iter().map(|c| c.size).sum();
    assert_eq!(total, size);
    assert_eq!(plan[2].size, size - 2 * CHUNK_SIZE);
}

#[test]
fn plan_sizes_always_cover_the_file() {
    for size in [0u64, 1, 9, 10, 11, 19, 20, 21, 100] {
        let plan = plan_chunks(size, 10);
        let total: u64 = plan.iter().map(|c| c.size).sum();
        assert_eq!(total, size);
        for (i, c) in plan.iter().enumerate() {
            assert_eq!(c.index as usize, i);
            assert_eq!(c.offset, i as u64 * 10);
        }
    }
}
