use gpu_lease::descriptor_set::{
    BuilderError, DescriptorPool, DescriptorPoolInfo, DescriptorPoolInfoBuilder,
    DescriptorPoolSize, DescriptorPoolSizeBuilder, DescriptorSetFree, DescriptorSetRequest,
};
use gpu_lease::error::DriverError;

fn sizes() -> Vec<DescriptorPoolSize> {
    vec![
        DescriptorPoolSize { ty: 6, descriptor_count: 8 },
        DescriptorPoolSize { ty: 1, descriptor_count: 4 },
    ]
}

fn pool_of(max_sets: u32) -> DescriptorPool {
    let info = DescriptorPoolInfo::from(DescriptorPoolInfo::new(max_sets).pool_sizes(sizes()));
    DescriptorPool::create(info, Ok(77)).unwrap()
}

#[test]
fn builder_builds_when_every_field_is_set() {
    let builder = DescriptorPoolInfo::new(4).pool_sizes(sizes());
    assert!(builder.complete());
    let info = builder.build().unwrap();
    assert_eq!(info, DescriptorPoolInfo { max_sets: 4, pool_sizes: sizes() });
    let info = DescriptorPoolInfo::from(DescriptorPoolInfo::new(9).pool_sizes(vec![]));
    assert_eq!(info, DescriptorPoolInfo { max_sets: 9, pool_sizes: vec![] });
}

#[test]
fn builder_names_the_first_missing_field() {
    let builder = DescriptorPoolInfo::new(4);
    assert!(!builder.complete());
    assert_eq!(builder.build().unwrap_err(), BuilderError::UninitializedField("pool_sizes"));
    let builder = DescriptorPoolInfoBuilder::default();
    assert_eq!(builder.build().unwrap_err(), BuilderError::UninitializedField("max_sets"));
    let builder = DescriptorPoolInfoBuilder::default().pool_sizes(sizes());
    assert_eq!(builder.build().unwrap_err(), BuilderError::UninitializedField("max_sets"));
    let builder = DescriptorPoolInfoBuilder::default().pool_sizes(sizes()).max_sets(1);
    assert_eq!(builder.build().unwrap().max_sets, 1);
}

#[test]
fn pool_size_builder() {
    let size = DescriptorPoolSizeBuilder::default().ty(3).descriptor_count(5).build();
    assert_eq!(size, Ok(DescriptorPoolSize { ty: 3, descriptor_count: 5 }));
    let missing = DescriptorPoolSizeBuilder::default().descriptor_count(5).build();
    assert_eq!(missing, Err(BuilderError::UninitializedField("ty")));
    let missing = DescriptorPoolSizeBuilder::default().ty(3).build();
    assert_eq!(missing, Err(BuilderError::UninitializedField("descriptor_count")));
}

#[test]
fn creation_request_lists_the_pool_sizes() {
    let info = DescriptorPoolInfo { max_sets: 4, pool_sizes: sizes() };
    let request = info.request();
    assert!(request.free_descriptor_set);
    assert_eq!(request.max_sets, 4);
    assert_eq!(request.pool_sizes, vec![(6, 8), (1, 4)]);
}

#[test]
fn creation_that_the_driver_refuses_is_unsupported() {
    let info = DescriptorPoolInfo { max_sets: 4, pool_sizes: sizes() };
    assert_eq!(DescriptorPool::create(info, Err(-1)).unwrap_err(), DriverError::Unsupported);
    let info = DescriptorPoolInfo { max_sets: 4, pool_sizes: sizes() };
    let pool = DescriptorPool::create(info, Ok(5)).unwrap();
    assert_eq!(pool.handle(), 5);
    assert_eq!(pool.live_sets(), 0);
    assert_eq!(pool.info().max_sets, 4);
    assert_eq!(pool.info().pool_sizes, sizes());
    assert!(pool.is_unused());
}

#[test]
fn fifth_set_of_a_pool_of_four_is_refused() {
    let mut pool = pool_of(4);
    let mut sets = Vec::new();
    for i in 0..4u64 {
        assert_eq!(
            DescriptorPool::descriptor_set_request(&pool, 9, 1),
            Some(DescriptorSetRequest { descriptor_pool: 77, layout: 9, count: 1 })
        );
        let set = DescriptorPool::allocate_descriptor_set(&mut pool, 9, Ok(vec![100 + i])).unwrap();
        assert_eq!(set.handle(), 100 + i);
        assert_eq!(set.pool(), 77);
        sets.push(set);
    }
    assert_eq!(pool.live_sets(), 4);

    assert_eq!(DescriptorPool::descriptor_set_request(&pool, 9, 1), None);
    let fifth = DescriptorPool::allocate_descriptor_set(&mut pool, 9, Ok(vec![104]));
    assert_eq!(fifth.unwrap_err(), DriverError::Unsupported);
    assert_eq!(pool.live_sets(), 4);
    assert_eq!(pool.handle(), 77);
    assert_eq!(pool.info().max_sets, 4);
    assert!(!pool.is_unused());

    let set = sets.pop().unwrap();
    let free = DescriptorPool::free_descriptor_set(&mut pool, set, false);
    assert_eq!(free, Some(DescriptorSetFree { descriptor_pool: 77, descriptor_set: 103 }));
    assert_eq!(pool.live_sets(), 3);
    let again = DescriptorPool::allocate_descriptor_set(&mut pool, 9, Ok(vec![105]));
    assert_eq!(again.unwrap().handle(), 105);
    assert_eq!(pool.live_sets(), 4);
}

#[test]
fn sets_are_allocated_together() {
    let mut pool = pool_of(5);
    let sets = DescriptorPool::allocate_descriptor_sets(&mut pool, 1, 3, Ok(vec![7, 8, 9])).unwrap();
    let handles: Vec<u64> = sets.iter().map(|s| s.handle()).collect();
    assert_eq!(handles, vec![7, 8, 9]);
    assert!(sets.iter().all(|s| s.pool() == 77));
    assert_eq!(pool.live_sets(), 3);
    let too_many = DescriptorPool::allocate_descriptor_sets(&mut pool, 1, 3, Ok(vec![1, 2, 3]));
    assert_eq!(too_many.unwrap_err(), DriverError::Unsupported);
    assert_eq!(pool.live_sets(), 3);
    let rest = DescriptorPool::allocate_descriptor_sets(&mut pool, 1, 2, Ok(vec![1, 2])).unwrap();
    assert_eq!(rest.len(), 2);
    assert_eq!(pool.live_sets(), 5);
    let none = DescriptorPool::allocate_descriptor_sets(&mut pool, 1, 0, Ok(vec![])).unwrap();
    assert_eq!(none.len(), 0);
}

#[test]
fn allocation_that_the_driver_refuses_leaves_the_pool_as_it_was() {
    let mut pool = pool_of(4);
    let refused = DescriptorPool::allocate_descriptor_sets(&mut pool, 1, 2, Err(-1000069000));
    assert_eq!(refused.unwrap_err(), DriverError::Unsupported);
    assert_eq!(pool.live_sets(), 0);
    let refused = DescriptorPool::allocate_descriptor_set(&mut pool, 1, Err(-1));
    assert_eq!(refused.unwrap_err(), DriverError::Unsupported);
    assert_eq!(pool.live_sets(), 0);
}

#[test]
fn answer_of_the_wrong_length_is_invalid_data() {
    let mut pool = pool_of(4);
    let wrong = DescriptorPool::allocate_descriptor_sets(&mut pool, 1, 2, Ok(vec![1]));
    assert_eq!(wrong.unwrap_err(), DriverError::InvalidData);
    let wrong = DescriptorPool::allocate_descriptor_sets(&mut pool, 1, 2, Ok(vec![1, 2, 3]));
    assert_eq!(wrong.unwrap_err(), DriverError::InvalidData);
    let wrong = DescriptorPool::allocate_descriptor_set(&mut pool, 1, Ok(vec![]));
    assert_eq!(wrong.unwrap_err(), DriverError::InvalidData);
    assert_eq!(pool.live_sets(), 0);
}

#[test]
fn set_stays_allocated_while_the_thread_panics() {
    let mut pool = pool_of(2);
    let set = DescriptorPool::allocate_descriptor_set(&mut pool, 1, Ok(vec![5])).unwrap();
    assert_eq!(DescriptorPool::free_descriptor_set(&mut pool, set, true), None);
    assert_eq!(pool.live_sets(), 1);
}

#[test]
fn unused_pool_is_destroyed_unless_the_thread_panics() {
    assert_eq!(pool_of(2).destroy(false), Some(77));
    assert_eq!(pool_of(2).destroy(true), None);
    let mut pool = pool_of(1);
    let set = DescriptorPool::allocate_descriptor_set(&mut pool, 1, Ok(vec![5])).unwrap();
    assert!(!pool.is_unused());
    DescriptorPool::free_descriptor_set(&mut pool, set, false);
    assert!(pool.is_unused());
    assert_eq!(pool.destroy(false), Some(77));
}
