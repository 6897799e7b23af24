use a_memory_pool::ArcRecycled;
use std::sync::mpsc;

#[test]
fn deref_usage_test() {
    let (tx, _) = mpsc::channel();
    let mut rec = ArcRecycled::new(Vec::<f64>::with_capacity(50), tx);

    for _ in 0..10 {
        rec.get_mut().unwrap().push(5.0);
    }
}

#[test]
#[should_panic]
fn multiple_ref_write_test() {
    let (tx, _) = mpsc::channel();
    let mut rec = ArcRecycled::new(Vec::<f64>::with_capacity(50), tx);
    let _rec2 = rec.clone();

    for _ in 0..10 {
        rec.get_mut().unwrap().push(5.0);
    }
}

#[test]
fn data_return_test() {
    // Channel to recv recycled data
    let (tx, rx) = mpsc::channel();

    // New scope for adding values
    {
        let mut rec = ArcRecycled::new(Vec::<f64>::with_capacity(50), tx);
        for _ in 0..10 {
            rec.get_mut().unwrap().push(5.0);
        }
        rec.release();
    }

    // the recycled vec
    let new_val = rx.recv().unwrap().unwrap();

    assert_eq!(new_val.len(), 0);
    assert_eq!(new_val.capacity(), 50);
}

#[test]
fn no_data_return_test() {
    // Channel to recv recycled data
    let (tx, rx) = mpsc::channel();
    let mut rec = ArcRecycled::new(Vec::<f64>::with_capacity(50), tx);
    for _ in 0..10 {
        rec.get_mut().unwrap().push(5.0);
    }

    // New scope for cloning
    {
        let rec2 = rec.clone();
        rec2.release();
    }

    // No recycled data
    let _new_val = rx.try_recv().unwrap_err();

    assert_eq!(rec.len(), 10);
    assert_eq!(rec.capacity(), 50);
}
