//! Pools of reusable objects: taken out with `acquire`, given back with `release`.
use vstd::prelude::*;

verus! {

/// A pool of objects of type `T`.
pub trait ObjectPool<T> {
    type Error;

    /// Takes an object out of the pool, or makes a new one.
    fn acquire(&mut self) -> Result<T, Self::Error>;

    /// Gives an object back to the pool.
    fn release(&mut self, obj: T) -> Result<(), Self::Error>;

    /// The number of objects waiting in the pool.
    fn available_count(&self) -> usize;

    /// The most objects the pool keeps.
    fn capacity(&self) -> usize;

    /// Whether no object is waiting in the pool.
    fn is_empty(&self) -> bool {
        self.available_count() == 0
    }

    /// Whether the pool keeps as many objects as it can.
    fn is_full(&self) -> bool {
        self.available_count() >= self.capacity()
    }

    /// Drops the objects waiting in the pool.
    fn clear(&mut self) -> Result<(), Self::Error>;

    /// Counts of the pool's objects.
    fn stats(&self) -> PoolStats;
}

/// Counts of the objects of a pool.
#[derive(Debug, Clone, Copy, PartialEq, Eq, Structural)]
pub struct PoolStats {
    pub capacity: usize,
    pub available: usize,
    pub in_use: usize,
    pub total_created: usize,
    pub total_destroyed: usize,
}

impl Default for PoolStats {
    fn default() -> (r: PoolStats)
        ensures
            r == (PoolStats {
                capacity: 0,
                available: 0,
                in_use: 0,
                total_created: 0,
                total_destroyed: 0,
            }),
    {
        PoolStats { capacity: 0, available: 0, in_use: 0, total_created: 0, total_destroyed: 0 }
    }
}

/// An unbounded pool that makes objects with `factory` when it has none; objects come back
/// out in the reverse order of their release.
#[verifier::reject_recursive_types(T)]
pub struct SimpleObjectPool<T, F: Fn() -> T> {
    objects: Vec<T>,
    factory: F,
}

impl<T, F: Fn() -> T> SimpleObjectPool<T, F> {
    #[verifier::type_invariant]
    spec fn factory_callable(self) -> bool {
        self.factory.requires(())
    }

    /// The objects waiting in the pool, the next to come out last.
    pub closed spec fn spec_objects(self) -> Seq<T> {
        self.objects@
    }

    /// Whether `obj` is an object that the factory can make.
    pub closed spec fn spec_made(self, obj: T) -> bool {
        self.factory.ensures((), obj)
    }

    /// An empty pool.
    pub fn new(factory: F) -> (r: SimpleObjectPool<T, F>)
        requires
            factory.requires(()),
        ensures
            r.spec_objects().len() == 0,
            forall|obj: T| r.spec_made(obj) == factory.ensures((), obj),
    {
        SimpleObjectPool { objects: Vec::new(), factory }
    }

    /// A pool that starts with `capacity` objects made by `factory`.
    pub fn with_initial_capacity(factory: F, capacity: usize) -> (r: SimpleObjectPool<T, F>)
        requires
            factory.requires(()),
        ensures
            r.spec_objects().len() == capacity,
            forall|i: int| 0 <= i < capacity ==> factory.ensures((), #[trigger] r.spec_objects()[i]),
            forall|obj: T| r.spec_made(obj) == factory.ensures((), obj),
    {
        let mut objects: Vec<T> = Vec::new();
        let mut i: usize = 0;
        while i < capacity
            invariant
                factory.requires(()),
                i <= capacity,
                objects@.len() == i,
                forall|j: int| 0 <= j < i ==> factory.ensures((), #[trigger] objects@[j]),
            decreases capacity - i,
        {
            let obj = factory();
            objects.push(obj);
            i += 1;
        }
        SimpleObjectPool { objects, factory }
    }

    /// The number of objects waiting in the pool.
    pub fn size(&self) -> (r: usize)
        ensures
            r == self.spec_objects().len(),
    {
        self.objects.len()
    }

    /// The pool has no bound.
    pub fn capacity(&self) -> (r: Option<usize>)
        ensures
            r is None,
    {
        None
    }

    /// The most recently released object, or a new one when the pool is empty. Never fails.
    pub fn acquire(&mut self) -> (r: Result<T, String>)
        ensures
            r is Ok,
            old(self).spec_objects().len() > 0 ==> r == Ok::<T, String>(old(self).spec_objects().last())
                && final(self).spec_objects() == old(self).spec_objects().drop_last(),
            old(self).spec_objects().len() == 0 ==> (r matches Ok(x) && old(self).spec_made(x))
                && final(self).spec_objects().len() == 0,
            forall|obj: T| final(self).spec_made(obj) == old(self).spec_made(obj),
    {
        proof {
            use_type_invariant(&*self);
        }
        let mut objects: Vec<T> = Vec::new();
        std::mem::swap(&mut self.objects, &mut objects);
        let r = match objects.pop() {
            Some(obj) => obj,
            None => (self.factory)(),
        };
        std::mem::swap(&mut self.objects, &mut objects);
        Ok(r)
    }

    /// Puts `item` back on top of the pool. Never fails.
    pub fn release(&mut self, item: T) -> (r: Result<(), String>)
        ensures
            r is Ok,
            final(self).spec_objects() == old(self).spec_objects().push(item),
            forall|obj: T| final(self).spec_made(obj) == old(self).spec_made(obj),
    {
        proof {
            use_type_invariant(&*self);
        }
        let mut objects: Vec<T> = Vec::new();
        std::mem::swap(&mut self.objects, &mut objects);
        objects.push(item);
        std::mem::swap(&mut self.objects, &mut objects);
        Ok(())
    }

    /// Drops every waiting object. Never fails.
    pub fn clear(&mut self) -> (r: Result<(), String>)
        ensures
            r is Ok,
            final(self).spec_objects().len() == 0,
            forall|obj: T| final(self).spec_made(obj) == old(self).spec_made(obj),
    {
        proof {
            use_type_invariant(&*self);
        }
        let mut objects: Vec<T> = Vec::new();
        std::mem::swap(&mut self.objects, &mut objects);
        Ok(())
    }

    /// Counts: every waiting object counts as available and as created.
    pub fn stats(&self) -> (r: PoolStats)
        ensures
            r == (PoolStats {
                capacity: 0,
                available: self.spec_objects().len() as usize,
                in_use: 0,
                total_created: self.spec_objects().len() as usize,
                total_destroyed: 0,
            }),
    {
        let len = self.objects.len();
        PoolStats { capacity: 0, available: len, in_use: 0, total_created: len, total_destroyed: 0 }
    }
}

/// The pool never fails; its errors are messages.
impl<T, F: Fn() -> T> ObjectPool<T> for SimpleObjectPool<T, F> {
    type Error = String;

    fn acquire(&mut self) -> Result<T, String> {
        SimpleObjectPool::acquire(self)
    }

    fn release(&mut self, obj: T) -> Result<(), String> {
        SimpleObjectPool::release(self, obj)
    }

    fn available_count(&self) -> usize {
        self.objects.len()
    }

    fn capacity(&self) -> usize {
        0
    }

    fn clear(&mut self) -> Result<(), String> {
        SimpleObjectPool::clear(self)
    }

    fn stats(&self) -> PoolStats {
        SimpleObjectPool::stats(self)
    }
}

} // verus!

verus! {

/// Makes, resets, checks and destroys the objects of a pool.
pub trait ObjectFactory<T> {
    type Error;

    /// A new object.
    fn create(&self) -> Result<T, Self::Error>;

    /// Makes a pooled object ready for reuse.
    fn reset(&self, obj: &mut T) -> Result<(), Self::Error>;

    /// Whether an object may go back to the pool.
    fn validate(&self, obj: &T) -> bool;

    /// Disposes of an object.
    fn destroy(&self, obj: T) -> Result<(), Self::Error>;
}

/// `x + 1`, or `usize::MAX` when that does not fit.
pub open spec fn inc(x: usize) -> usize {
    if x < usize::MAX {
        (x + 1) as usize
    } else {
        x
    }
}

/// `x - 1`, or zero when `x` is zero.
pub open spec fn dec(x: usize) -> usize {
    if x > 0 {
        (x - 1) as usize
    } else {
        0
    }
}

/// A bounded pool: released objects wait in order of release, and objects that fail
/// validation, or find the pool full, are destroyed. Its counts are kept as it goes and
/// saturate instead of overflowing or going below zero.
pub struct ThreadSafePool<T, F: ObjectFactory<T>> {
    objects: std::collections::VecDeque<T>,
    factory: F,
    capacity: usize,
    stats: PoolStats,
}

impl<T, F: ObjectFactory<T>> ThreadSafePool<T, F> {
    #[verifier::type_invariant]
    spec fn within_capacity(self) -> bool {
        self.objects@.len() <= self.capacity
    }

    /// The waiting objects, the next to come out first.
    pub closed spec fn spec_objects(&self) -> Seq<T> {
        self.objects@
    }

    pub closed spec fn spec_capacity(&self) -> usize {
        self.capacity
    }

    pub closed spec fn spec_stats(&self) -> PoolStats {
        self.stats
    }

    /// An empty pool that keeps at most `capacity` objects.
    pub fn new(factory: F, capacity: usize) -> (r: ThreadSafePool<T, F>)
        ensures
            r.spec_objects().len() == 0,
            r.spec_capacity() == capacity,
            r.spec_stats() == (PoolStats {
                capacity,
                available: 0,
                in_use: 0,
                total_created: 0,
                total_destroyed: 0,
            }),
    {
        let stats = PoolStats {
            capacity,
            available: 0,
            in_use: 0,
            total_created: 0,
            total_destroyed: 0,
        };
        ThreadSafePool { objects: std::collections::VecDeque::new(), factory, capacity, stats }
    }

    /// The number of waiting objects, never above the capacity.
    pub fn available_count(&self) -> (r: usize)
        ensures
            r == self.spec_objects().len(),
            r <= self.spec_capacity(),
    {
        proof {
            use_type_invariant(self);
        }
        self.objects.len()
    }

    pub fn capacity(&self) -> (r: usize)
        ensures
            r == self.spec_capacity(),
    {
        self.capacity
    }

    pub fn stats(&self) -> (r: PoolStats)
        ensures
            r == self.spec_stats(),
    {
        self.stats
    }

    /// The first waiting object, made ready by the factory's `reset`; when none waits, a new
    /// one from the factory's `create`. The object leaves the pool even when `reset` fails.
    pub fn acquire(&mut self) -> (r: Result<T, F::Error>)
        ensures
            final(self).spec_capacity() == old(self).spec_capacity(),
            final(self).spec_objects().len() <= final(self).spec_capacity(),
            old(self).spec_objects().len() > 0 ==> final(self).spec_objects() == old(self).spec_objects().drop_first(),
            old(self).spec_objects().len() == 0 ==> final(self).spec_objects() == old(self).spec_objects(),
            r is Ok && old(self).spec_objects().len() > 0 ==> final(self).spec_stats() == (
            PoolStats {
                available: dec(old(self).spec_stats().available),
                in_use: inc(old(self).spec_stats().in_use),
                ..old(self).spec_stats()
            }),
            r is Ok && old(self).spec_objects().len() == 0 ==> final(self).spec_stats() == (
            PoolStats {
                total_created: inc(old(self).spec_stats().total_created),
                in_use: inc(old(self).spec_stats().in_use),
                ..old(self).spec_stats()
            }),
            r is Err ==> final(self).spec_stats() == old(self).spec_stats(),
    {
        proof {
            use_type_invariant(&*self);
        }
        let mut objects = std::collections::VecDeque::new();
        std::mem::swap(&mut self.objects, &mut objects);
        let first = objects.pop_front();
        std::mem::swap(&mut self.objects, &mut objects);
        let mut stats = self.stats;
        match first {
            Some(obj) => {
                let mut obj = obj;
                match self.factory.reset(&mut obj) {
                    Ok(()) => {},
                    Err(e) => {
                        return Err(e);
                    },
                }
                stats.available = stats.available.saturating_sub(1);
                stats.in_use = stats.in_use.saturating_add(1);
                self.stats = stats;
                Ok(obj)
            },
            None => {
                let obj = match self.factory.create() {
                    Ok(obj) => obj,
                    Err(e) => {
                        return Err(e);
                    },
                };
                stats.total_created = stats.total_created.saturating_add(1);
                stats.in_use = stats.in_use.saturating_add(1);
                self.stats = stats;
                Ok(obj)
            },
        }
    }

    /// Gives `obj` back: it waits at the back of the pool when the factory's `validate`
    /// accepts it and the pool has room; otherwise the factory's `destroy` disposes of it.
    /// A full pool never grows.
    pub fn release(&mut self, obj: T) -> (r: Result<(), F::Error>)
        ensures
            final(self).spec_capacity() == old(self).spec_capacity(),
            final(self).spec_objects().len() <= final(self).spec_capacity(),
            final(self).spec_objects() == old(self).spec_objects().push(obj) || final(self).spec_objects() == old(self).spec_objects(),
            old(self).spec_objects().len() >= old(self).spec_capacity() ==> final(self).spec_objects() == old(self).spec_objects(),
            final(self).spec_objects() == old(self).spec_objects().push(obj) ==> r is Ok && final(self).spec_stats() == (PoolStats {
                available: inc(old(self).spec_stats().available),
                in_use: dec(old(self).spec_stats().in_use),
                ..old(self).spec_stats()
            }),
            final(self).spec_objects() == old(self).spec_objects() && r is Ok ==> final(self).spec_stats() == (PoolStats {
                total_destroyed: inc(old(self).spec_stats().total_destroyed),
                in_use: dec(old(self).spec_stats().in_use),
                ..old(self).spec_stats()
            }),
            r is Err ==> final(self).spec_objects() == old(self).spec_objects() && final(self).spec_stats() == old(self).spec_stats(),
    {
        proof {
            use_type_invariant(&*self);
        }
        let mut stats = self.stats;
        if !self.factory.validate(&obj) || self.objects.len() >= self.capacity {
            match self.factory.destroy(obj) {
                Ok(()) => {},
                Err(e) => {
                    return Err(e);
                },
            }
            stats.total_destroyed = stats.total_destroyed.saturating_add(1);
            stats.in_use = stats.in_use.saturating_sub(1);
            self.stats = stats;
            return Ok(());
        }
        let ghost kept = obj;
        let mut objects = std::collections::VecDeque::new();
        std::mem::swap(&mut self.objects, &mut objects);
        objects.push_back(obj);
        std::mem::swap(&mut self.objects, &mut objects);
        stats.available = stats.available.saturating_add(1);
        stats.in_use = stats.in_use.saturating_sub(1);
        self.stats = stats;
        proof {
            assert(self.objects@ != old(self).objects@) by {
                assert(self.objects@.len() != old(self).objects@.len());
            }
        }
        Ok(())
    }

    /// Destroys every waiting object with the factory's `destroy`. On the first failure the
    /// remaining objects are dropped and the failure is returned; the pool is empty either way.
    pub fn clear(&mut self) -> (r: Result<(), F::Error>)
        ensures
            final(self).spec_capacity() == old(self).spec_capacity(),
            final(self).spec_objects().len() == 0,
            r is Ok ==> final(self).spec_stats() == (PoolStats {
                available: 0,
                total_destroyed: if old(self).spec_stats().total_destroyed + old(self).spec_objects().len() <= usize::MAX {
                    (old(self).spec_stats().total_destroyed + old(self).spec_objects().len()) as usize
                } else {
                    usize::MAX
                },
                ..old(self).spec_stats()
            }),
            r is Err ==> final(self).spec_stats() == old(self).spec_stats(),
    {
        proof {
            use_type_invariant(&*self);
        }
        let mut objects = std::collections::VecDeque::new();
        std::mem::swap(&mut self.objects, &mut objects);
        let count = objects.len();
        while objects.len() > 0
            invariant
                self.objects@.len() == 0,
                self.capacity == old(self).capacity,
                self.stats == old(self).stats,
            decreases objects@.len(),
        {
            match objects.pop_front() {
                Some(obj) => match self.factory.destroy(obj) {
                    Ok(()) => {},
                    Err(e) => {
                        return Err(e);
                    },
                },
                None => {},
            }
        }
        let mut stats = self.stats;
        stats.available = 0;
        stats.total_destroyed = stats.total_destroyed.saturating_add(count);
        self.stats = stats;
        Ok(())
    }
}

/// The pool's operations; their contracts are those of the methods of the same names.
impl<T, F: ObjectFactory<T>> ObjectPool<T> for ThreadSafePool<T, F> {
    type Error = F::Error;

    fn acquire(&mut self) -> Result<T, F::Error> {
        ThreadSafePool::acquire(self)
    }

    fn release(&mut self, obj: T) -> Result<(), F::Error> {
        ThreadSafePool::release(self, obj)
    }

    fn available_count(&self) -> usize {
        ThreadSafePool::available_count(self)
    }

    fn capacity(&self) -> usize {
        ThreadSafePool::capacity(self)
    }

    fn clear(&mut self) -> Result<(), F::Error> {
        ThreadSafePool::clear(self)
    }

    fn stats(&self) -> PoolStats {
        ThreadSafePool::stats(self)
    }
}

} // verus!

verus! {

/// A factory made of four functions.
#[verifier::reject_recursive_types(T)]
pub struct SimpleFactory<T, CreateFn, ResetFn, ValidateFn, DestroyFn> where
    CreateFn: Fn() -> Result<T, String>,
    ResetFn: Fn(&mut T) -> Result<(), String>,
    ValidateFn: Fn(&T) -> bool,
    DestroyFn: Fn(T) -> Result<(), String>,
 {
    create: CreateFn,
    reset: ResetFn,
    validate: ValidateFn,
    destroy: DestroyFn,
}

impl<T, CreateFn, ResetFn, ValidateFn, DestroyFn> SimpleFactory<
    T,
    CreateFn,
    ResetFn,
    ValidateFn,
    DestroyFn,
> where
    CreateFn: Fn() -> Result<T, String>,
    ResetFn: Fn(&mut T) -> Result<(), String>,
    ValidateFn: Fn(&T) -> bool,
    DestroyFn: Fn(T) -> Result<(), String>,
 {
    #[verifier::type_invariant]
    spec fn callable(self) -> bool {
        &&& self.create.requires(())
        &&& forall|obj: &mut T| #[trigger] self.reset.requires((obj,))
        &&& forall|obj: &T| #[trigger] self.validate.requires((obj,))
        &&& forall|obj: T| #[trigger] self.destroy.requires((obj,))
    }

    /// A factory from functions that accept every argument.
    pub fn new(create: CreateFn, reset: ResetFn, validate: ValidateFn, destroy: DestroyFn) -> (r:
        Self)
        requires
            create.requires(()),
            forall|obj: &mut T| #[trigger] reset.requires((obj,)),
            forall|obj: &T| #[trigger] validate.requires((obj,)),
            forall|obj: T| #[trigger] destroy.requires((obj,)),
    {
        SimpleFactory { create, reset, validate, destroy }
    }
}

impl<T, CreateFn, ResetFn, ValidateFn, DestroyFn> ObjectFactory<T> for SimpleFactory<
    T,
    CreateFn,
    ResetFn,
    ValidateFn,
    DestroyFn,
> where
    CreateFn: Fn() -> Result<T, String>,
    ResetFn: Fn(&mut T) -> Result<(), String>,
    ValidateFn: Fn(&T) -> bool,
    DestroyFn: Fn(T) -> Result<(), String>,
 {
    type Error = String;

    fn create(&self) -> Result<T, String> {
        proof {
            use_type_invariant(self);
        }
        (self.create)()
    }

    fn reset(&self, obj: &mut T) -> Result<(), String> {
        proof {
            use_type_invariant(self);
        }
        (self.reset)(obj)
    }

    fn validate(&self, obj: &T) -> bool {
        proof {
            use_type_invariant(self);
        }
        (self.validate)(obj)
    }

    fn destroy(&self, obj: T) -> Result<(), String> {
        proof {
            use_type_invariant(self);
        }
        (self.destroy)(obj)
    }
}

} // verus!
