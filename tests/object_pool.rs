use rpa_source::object_pool::{
    ObjectFactory, ObjectPool, PoolStats, SimpleFactory, SimpleObjectPool, ThreadSafePool,
};

#[test]
fn test_object_pool() {
    let mut pool = SimpleObjectPool::new(|| String::new());

    // Initially pool is empty, but acquire will create new items
    let item = pool.acquire().unwrap();
    assert_eq!(item, "");

    pool.release("item1".to_string()).unwrap();
    pool.release("item2".to_string()).unwrap();

    let item1 = pool.acquire().unwrap();
    let item2 = pool.acquire().unwrap();

    // LIFO order, so last released should be first acquired
    assert_eq!(item1, "item2");
    assert_eq!(item2, "item1");

    let item3 = pool.acquire().unwrap();
    assert_eq!(item3, "");
}

#[test]
fn test_object_pool_with_initial_capacity() {
    let mut pool = SimpleObjectPool::with_initial_capacity(|| String::from("default"), 3);

    assert!(pool.acquire().is_ok());
    assert!(pool.acquire().is_ok());
    assert!(pool.acquire().is_ok());

    assert!(pool.acquire().is_ok());

    pool.release("item1".to_string()).unwrap();
    pool.release("item2".to_string()).unwrap();

    assert!(pool.acquire().is_ok());
    assert!(pool.acquire().is_ok());
}

#[test]
fn test_object_pool_clear() {
    let mut pool = SimpleObjectPool::new(|| String::new());
    let _ = pool.release("item1".to_string());
    let _ = pool.release("item2".to_string());
    assert_eq!(pool.acquire().unwrap(), "item2");
    assert_eq!(pool.acquire().unwrap(), "item1");
    let _ = pool.release("item3".to_string());
    let _ = pool.clear();
    assert!(pool.acquire().is_ok());
}

#[test]
fn test_object_pool_size_and_capacity() {
    let mut pool = SimpleObjectPool::with_initial_capacity(|| 42, 5);
    assert_eq!(pool.size(), 5);
    assert_eq!(pool.capacity(), None);
    for _ in 0..5 {
        let _ = pool.acquire();
    }
    assert_eq!(pool.size(), 0);
}

#[test]
fn pool_through_the_trait() {
    let mut pool = SimpleObjectPool::new(|| 7u32);
    assert!(ObjectPool::is_empty(&pool));
    ObjectPool::release(&mut pool, 1).unwrap();
    assert_eq!(ObjectPool::available_count(&pool), 1);
    let stats = ObjectPool::stats(&pool);
    assert_eq!(stats.available, 1);
    assert_eq!(stats.total_created, 1);
    assert_eq!(ObjectPool::acquire(&mut pool).unwrap(), 1);
    assert_eq!(ObjectPool::acquire(&mut pool).unwrap(), 7);
    ObjectPool::clear(&mut pool).unwrap();
    assert_eq!(PoolStats::default().capacity, 0);
}

struct Counter;

impl ObjectFactory<u32> for Counter {
    type Error = String;

    fn create(&self) -> Result<u32, String> {
        Ok(100)
    }

    fn reset(&self, obj: &mut u32) -> Result<(), String> {
        *obj += 1;
        Ok(())
    }

    fn validate(&self, obj: &u32) -> bool {
        *obj != 0
    }

    fn destroy(&self, _obj: u32) -> Result<(), String> {
        Ok(())
    }
}

#[test]
fn bounded_pool_keeps_counts() {
    let mut pool = ThreadSafePool::new(Counter, 2);
    assert_eq!(pool.acquire().unwrap(), 100);
    pool.release(1).unwrap();
    pool.release(2).unwrap();
    pool.release(3).unwrap();
    pool.release(0).unwrap();
    assert_eq!(pool.available_count(), 2);
    assert!(pool.is_full());
    assert_eq!(pool.acquire().unwrap(), 2);
    let stats = pool.stats();
    assert_eq!(stats.capacity, 2);
    assert_eq!(stats.available, 1);
    assert_eq!(stats.total_created, 1);
    assert_eq!(stats.total_destroyed, 2);
    pool.clear().unwrap();
    assert_eq!(pool.available_count(), 0);
    assert_eq!(pool.stats().total_destroyed, 3);
}

#[test]
fn pool_with_a_factory_of_functions() {
    let factory = SimpleFactory::new(
        || Ok(String::from("fresh")),
        |s: &mut String| {
            s.clear();
            Ok(())
        },
        |s: &String| s.len() < 10,
        |_s: String| Ok(()),
    );
    let mut pool = ThreadSafePool::new(factory, 4);
    assert_eq!(pool.acquire().unwrap(), "fresh");
    pool.release("used".to_string()).unwrap();
    pool.release("far too long to keep".to_string()).unwrap();
    assert_eq!(pool.available_count(), 1);
    assert_eq!(pool.acquire().unwrap(), "");
    assert_eq!(pool.stats().total_destroyed, 1);
}
