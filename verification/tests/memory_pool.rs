use a_memory_pool::MemoryPool;

#[test]
fn creation_test() {
    let mem = MemoryPool::create_with(5, 10, Box::new(|| Vec::<f64>::with_capacity(20)));
    let _v1 = mem.get().unwrap();
    let _v2 = mem.try_get().unwrap();
}

#[test]
fn extra_elements_test() {
    let mem = MemoryPool::create_with(5, 10, Box::new(|| Vec::<f64>::with_capacity(20)));
    let mut vecs = vec![];
    for _ in 0..10 {
        vecs.push(mem.get().unwrap());
    }
}

#[test]
fn recycling_test() {
    let mem = MemoryPool::create_with(5, 10, Box::new(|| Vec::<f64>::with_capacity(20)));
    // First use of all 10 elements
    {
        let mut vecs = vec![];
        for _ in 0..10 {
            vecs.push(mem.get().unwrap());
        }
        for v in vecs {
            v.release();
        }
    }

    // Second use of all 10 elements
    {
        let mut vecs = vec![];
        for _ in 0..10 {
            vecs.push(mem.get().unwrap());
        }
        for v in vecs {
            v.release();
        }
    }
}

#[test]
#[should_panic]
fn too_many_elements_test() {
    let mem = MemoryPool::create_with(5, 10, Box::new(|| Vec::<f64>::with_capacity(20)));
    let mut vecs = vec![];
    for _ in 0..11 {
        vecs.push(mem.get().unwrap());
    }
}

#[test]
fn too_many_elements_try_test() {
    let mem = MemoryPool::create_with(5, 10, Box::new(|| Vec::<f64>::with_capacity(20)));
    let mut vecs = vec![];
    for _ in 0..10 {
        vecs.push(mem.get().unwrap());
    }
    assert!(mem.try_get().is_none());
}
