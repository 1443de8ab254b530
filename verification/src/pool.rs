//! A bounded pool of reusable byte buffers with lifecycle callbacks: a
//! buffer is initialized when allocated, reset when returned, and torn
//! down when the pool shrinks.

use vstd::prelude::*;
use std::collections::VecDeque;
use crate::errors::LoggingError;

verus! {

/// A caller-supplied buffer mutator.  It holds an arbitrary
/// `Fn(&mut [u8])` behind an `Rc`, which Verus cannot represent, so the
/// holder is opaque; the one fact relied on is that a callback mutates the
/// bytes of a slice in place and therefore cannot change its length.
#[verifier::external_body]
pub struct BufMutator {
    inner: std::rc::Rc<dyn Fn(&mut [u8])>,
}

impl BufMutator {
    /// Relies on Rc::new: wraps the callback; nothing is assumed about
    /// what it does to the bytes.
    #[verifier::external_body]
    pub fn new<F>(f: F) -> BufMutator where F: Fn(&mut [u8]) + 'static {
        BufMutator { inner: std::rc::Rc::new(f) }
    }

    /// Relies on Rc::clone: hands back another holder of the very same
    /// callback, indistinguishable from this one.
    #[verifier::external_body]
    fn duplicate(&self) -> (r: BufMutator)
        ensures
            r == *self,
    {
        BufMutator { inner: self.inner.clone() }
    }

    /// Relies on dynamic dispatch through std's `Fn`: runs the held
    /// callback on the buffer's bytes.  In-place slice mutation cannot
    /// change the buffer's length.
    #[verifier::external_body]
    fn apply(&self, buf: &mut Vec<u8>)
        ensures
            final(buf)@.len() == old(buf)@.len(),
    {
        (self.inner)(&mut buf[..]);
    }
}

/// The three lifecycle callbacks of a pool, each optional.
pub struct BufCallbacks {
    init_cb: Option<BufMutator>,
    destroy_cb: Option<BufMutator>,
    reset_cb: Option<BufMutator>,
}

impl View for BufCallbacks {
    type V = (Option<BufMutator>, Option<BufMutator>, Option<BufMutator>);

    closed spec fn view(&self) -> (Option<BufMutator>, Option<BufMutator>, Option<BufMutator>) {
        (self.init_cb, self.destroy_cb, self.reset_cb)
    }
}

impl BufCallbacks {
    /// Runs the initialization callback, if one was set, on a freshly
    /// allocated buffer.
    pub fn init(&self, buf: &mut Vec<u8>)
        ensures
            final(buf)@.len() == old(buf)@.len(),
    {
        match &self.init_cb {
            Some(f) => f.apply(buf),
            None => {},
        }
    }

    /// Runs the teardown callback, if one was set, on a buffer about to be
    /// freed.
    pub fn destroy(&self, buf: &mut Vec<u8>)
        ensures
            final(buf)@.len() == old(buf)@.len(),
    {
        match &self.destroy_cb {
            Some(f) => f.apply(buf),
            None => {},
        }
    }

    /// Runs the reset callback, if one was set, on a buffer returned to
    /// the pool.
    pub fn reset(&self, buf: &mut Vec<u8>)
        ensures
            final(buf)@.len() == old(buf)@.len(),
    {
        match &self.reset_cb {
            Some(f) => f.apply(buf),
            None => {},
        }
    }
}

/// Builds a [`BufCallbacks`], each callback settable independently.
pub struct BufCallbacksBuilder {
    init_fn: Option<BufMutator>,
    destroy_fn: Option<BufMutator>,
    reset_fn: Option<BufMutator>,
}

impl View for BufCallbacksBuilder {
    type V = (Option<BufMutator>, Option<BufMutator>, Option<BufMutator>);

    closed spec fn view(&self) -> (Option<BufMutator>, Option<BufMutator>, Option<BufMutator>) {
        (self.init_fn, self.destroy_fn, self.reset_fn)
    }
}

impl Default for BufCallbacksBuilder {
    /// A builder with no callbacks set.
    fn default() -> (r: BufCallbacksBuilder)
        ensures
            r@ == (None::<BufMutator>, None::<BufMutator>, None::<BufMutator>),
    {
        BufCallbacksBuilder { init_fn: None, destroy_fn: None, reset_fn: None }
    }
}

impl BufCallbacksBuilder {
    /// A builder with no callbacks set.
    pub fn new() -> (r: BufCallbacksBuilder)
        ensures
            r@ == (None::<BufMutator>, None::<BufMutator>, None::<BufMutator>),
    {
        BufCallbacksBuilder { init_fn: None, destroy_fn: None, reset_fn: None }
    }

    /// Sets the initialization callback.
    pub fn init_fn<F>(&mut self, f: F) -> (r: &mut BufCallbacksBuilder) where
        F: Fn(&mut [u8]) + 'static,

        ensures
            (*r)@.0 is Some,
            (*r)@.1 == old(self)@.1,
            (*r)@.2 == old(self)@.2,
            *final(self) == *final(r),
    {
        self.init_fn = Some(BufMutator::new(f));
        self
    }

    /// Sets the teardown callback.
    pub fn destroy_fn<F>(&mut self, f: F) -> (r: &mut BufCallbacksBuilder) where
        F: Fn(&mut [u8]) + 'static,

        ensures
            (*r)@.0 == old(self)@.0,
            (*r)@.1 is Some,
            (*r)@.2 == old(self)@.2,
            *final(self) == *final(r),
    {
        self.destroy_fn = Some(BufMutator::new(f));
        self
    }

    /// Sets the reset callback.
    pub fn reset_fn<F>(&mut self, f: F) -> (r: &mut BufCallbacksBuilder) where
        F: Fn(&mut [u8]) + 'static,

        ensures
            (*r)@.0 == old(self)@.0,
            (*r)@.1 == old(self)@.1,
            (*r)@.2 is Some,
            *final(self) == *final(r),
    {
        self.reset_fn = Some(BufMutator::new(f));
        self
    }

    /// Assembles the callbacks as set so far.  It never fails; the
    /// `Result` mirrors the builder convention of the callers.
    pub fn build(&self) -> (r: Result<BufCallbacks, LoggingError>)
        ensures
            r matches Ok(cb) && cb@ == self@,
    {
        let init_cb = match &self.init_fn {
            Some(f) => Some(f.duplicate()),
            None => None,
        };
        let destroy_cb = match &self.destroy_fn {
            Some(f) => Some(f.duplicate()),
            None => None,
        };
        let reset_cb = match &self.reset_fn {
            Some(f) => Some(f.duplicate()),
            None => None,
        };
        Ok(BufCallbacks { init_cb, destroy_cb, reset_cb })
    }
}

/// Configuration of a pool: the size of each buffer, how many buffers may
/// be out at once (0 for no bound), and the lifecycle callbacks.
pub struct PoolConfig {
    pub obj_size: usize,
    pub nmax: usize,
    pub callbacks: BufCallbacks,
}

/// The pool: a free queue of equally sized buffers and a count of the
/// buffers currently taken.
pub struct Pool {
    freeq: VecDeque<Vec<u8>>,
    obj_size: usize,
    nused: usize,
    nmax: usize,
    callbacks: BufCallbacks,
}

impl Pool {
    /// Every free buffer has the configured size.
    pub closed spec fn inv(&self) -> bool {
        forall|i: int|
            0 <= i < self.freeq@.len() ==> (#[trigger] self.freeq@[i])@.len() == self.obj_size
    }

    /// The count of buffers currently taken.
    pub closed spec fn spec_nused(&self) -> usize {
        self.nused
    }

    /// The count of buffers waiting in the free queue.
    pub closed spec fn spec_nfree(&self) -> int {
        self.freeq@.len() as int
    }

    /// The bound on taken buffers; 0 means unbounded.
    pub closed spec fn spec_nmax(&self) -> usize {
        self.nmax
    }

    /// The size of each buffer.
    pub closed spec fn spec_obj_size(&self) -> usize {
        self.obj_size
    }

    /// A pool with nothing allocated yet.
    pub fn new(cfg: PoolConfig) -> (r: Pool)
        ensures
            r.inv(),
            r.spec_nused() == 0,
            r.spec_nfree() == 0,
            r.spec_nmax() == cfg.nmax,
            r.spec_obj_size() == cfg.obj_size,
    {
        Pool {
            freeq: VecDeque::with_capacity(cfg.nmax),
            nused: 0,
            obj_size: cfg.obj_size,
            nmax: cfg.nmax,
            callbacks: cfg.callbacks,
        }
    }

    /// The count of "used" objects, i.e. currently allocated and taken.
    pub fn nused(&self) -> (r: usize)
        ensures
            r == self.spec_nused(),
    {
        self.nused
    }

    /// The count of unused objects.
    pub fn nfree(&self) -> (r: usize)
        ensures
            r == self.spec_nfree(),
    {
        self.freeq.len()
    }

    /// The maximum number of objects this pool will allocate.
    /// If 0 the pool is unlimited.
    pub fn nmax(&self) -> (r: usize)
        ensures
            r == self.spec_nmax(),
    {
        self.nmax
    }

    /// A zeroed buffer of length `n`.
    fn zero_buf(n: usize) -> (r: Vec<u8>)
        ensures
            r@.len() == n,
            forall|i: int| 0 <= i < n ==> r@[i] == 0,
    {
        let mut v: Vec<u8> = Vec::new();
        while v.len() < n
            invariant
                v@.len() <= n,
                forall|i: int| 0 <= i < v@.len() ==> v@[i] == 0,
            decreases n - v@.len(),
        {
            v.push(0u8);
        }
        v
    }

    /// Allocates and initializes one fresh buffer.
    fn allocate_one(&self) -> (r: Vec<u8>)
        ensures
            r@.len() == self.spec_obj_size(),
    {
        let mut b = Self::zero_buf(self.obj_size);
        self.callbacks.init(&mut b);
        b
    }

    /// Fills the free queue up to `size` buffers; a free queue already
    /// that long is left alone.  The bound `nmax` is deliberately not
    /// consulted here: preallocation may fill the queue beyond it.
    pub fn prealloc(&mut self, size: usize)
        requires
            old(self).inv(),
        ensures
            final(self).inv(),
            final(self).spec_nused() == old(self).spec_nused(),
            final(self).spec_nmax() == old(self).spec_nmax(),
            final(self).spec_obj_size() == old(self).spec_obj_size(),
            final(self).spec_nfree() == if old(self).spec_nfree() >= size {
                old(self).spec_nfree()
            } else {
                size as int
            },
    {
        while self.freeq.len() < size
            invariant
                self.inv(),
                self.spec_nused() == old(self).spec_nused(),
                self.spec_nmax() == old(self).spec_nmax(),
                self.spec_obj_size() == old(self).spec_obj_size(),
                if old(self).spec_nfree() >= size {
                    self.spec_nfree() == old(self).spec_nfree()
                } else {
                    old(self).spec_nfree() <= self.spec_nfree() <= size as int
                },
            decreases size - self.freeq@.len(),
        {
            let v = self.allocate_one();
            self.freeq.push_back(v);
        }
    }

    /// Gets a buffer from the pool: a queued one if any is free, else a
    /// fresh one while fewer than `nmax` are out (or `nmax` is 0).  `None`
    /// reports a pool at capacity, which is left unchanged.
    pub fn take(&mut self) -> (r: Option<Vec<u8>>)
        requires
            old(self).inv(),
            old(self).spec_nused() < usize::MAX,
        ensures
            final(self).inv(),
            final(self).spec_nmax() == old(self).spec_nmax(),
            final(self).spec_obj_size() == old(self).spec_obj_size(),
            old(self).spec_nfree() > 0 ==> r is Some && final(self).spec_nfree() == old(self).spec_nfree() - 1 && final(self).spec_nused() == old(self).spec_nused() + 1,
            old(self).spec_nfree() == 0 && (old(self).spec_nmax() == 0 || old(self).spec_nused()
                < old(self).spec_nmax()) ==> r is Some && final(self).spec_nfree() == 0 && final(self).spec_nused() == old(self).spec_nused() + 1,
            old(self).spec_nfree() == 0 && old(self).spec_nmax() > 0 && old(self).spec_nused()
                >= old(self).spec_nmax() ==> r is None && final(self).spec_nused() == old(self).spec_nused() && final(self).spec_nfree() == 0,
            r matches Some(b) ==> b@.len() == old(self).spec_obj_size(),
    {
        let popped = self.freeq.pop_front();
        let item = match popped {
            Some(b) => Some(b),
            None => {
                if self.nmax == 0 || self.nused < self.nmax {
                    Some(self.allocate_one())
                } else {
                    None  // the pool is at capacity
                }
            },
        };
        match item {
            Some(b) => {
                self.nused = self.nused + 1;
                Some(b)
            },
            None => None,
        }
    }

    /// Returns a buffer to the pool: it is reset and queued for reuse.
    pub fn put(&mut self, item: Vec<u8>)
        requires
            old(self).inv(),
            old(self).spec_nused() > 0,
            item@.len() == old(self).spec_obj_size(),
        ensures
            final(self).inv(),
            final(self).spec_nused() == old(self).spec_nused() - 1,
            final(self).spec_nfree() == old(self).spec_nfree() + 1,
            final(self).spec_nmax() == old(self).spec_nmax(),
            final(self).spec_obj_size() == old(self).spec_obj_size(),
    {
        let mut item = item;
        self.callbacks.reset(&mut item);
        self.freeq.push_back(item);
        self.nused = self.nused - 1;
    }

    /// Drops unused buffers, running the teardown callback on each before
    /// freeing it.
    pub fn shrink_to_fit(&mut self)
        requires
            old(self).inv(),
        ensures
            final(self).inv(),
            final(self).spec_nfree() == 0,
            final(self).spec_nused() == old(self).spec_nused(),
            final(self).spec_nmax() == old(self).spec_nmax(),
            final(self).spec_obj_size() == old(self).spec_obj_size(),
    {
        while self.freeq.len() > 0
            invariant
                self.inv(),
                self.spec_nused() == old(self).spec_nused(),
                self.spec_nmax() == old(self).spec_nmax(),
                self.spec_obj_size() == old(self).spec_obj_size(),
            decreases self.freeq@.len(),
        {
            let mut buf = self.freeq.pop_front().unwrap();
            self.callbacks.destroy(&mut buf);
        }
    }
}

} // verus!
