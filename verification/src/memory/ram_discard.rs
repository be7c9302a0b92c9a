//! Who is told when guest pages change between shared and private.
use std::sync::Arc;
use vstd::prelude::*;

verus! {

/// `std::io::Error`, carried through unopened.
#[verifier::external_type_specification]
#[verifier::external_body]
pub struct ExIoError(std::io::Error);

/// Invoked when guest pages change between shared and private.
///
/// `notify_populate` runs after the pages at `gpa..gpa + size` become shared;
/// `host_va` is the host address to set up DMA mappings with.
/// `notify_discard` runs before the pages become private; every mapping that
/// covers the range must be gone when it returns.
pub trait RamDiscardListener: Send + Sync {
    /// Called after the pages become shared.
    fn notify_populate(&self, gpa: u64, host_va: u64, size: u64) -> Result<(), std::io::Error>;

    /// Called before the pages become private.
    fn notify_discard(&self, gpa: u64, size: u64);
}

/// The listeners, in the order in which they registered.
pub struct RamDiscardListenerRegistry<L> {
    listeners: Vec<Arc<L>>,
}

/// `std::sync::Arc::ptr_eq`: two handles on one allocation hold the same value.
/// Which allocation a handle points at is not modelled, so nothing is said of
/// when the answer is yes.
#[verifier::external_body]
fn same_allocation<L>(a: &Arc<L>, b: &Arc<L>) -> (r: bool)
    ensures
        r ==> *a == *b,
{
    Arc::ptr_eq(a, b)
}

/// Whether comparing the allocations of two handles, in this order, gave an
/// answer.
pub closed spec fn compared<L>(a: Arc<L>, b: Arc<L>, answer: bool) -> bool {
    call_ensures(same_allocation::<L>, (&a, &b), answer)
}

/// `std::sync::Arc::clone`: another handle on the same value.
#[verifier::external_body]
fn share<L>(a: &Arc<L>) -> (r: Arc<L>)
    ensures
        r == *a,
{
    Arc::clone(a)
}

/// Position of the first mark that is set, or the length if none is.
pub open spec fn first_marked(marks: Seq<bool>) -> int
    decreases marks.len(),
{
    if marks.len() == 0 || marks[0] {
        0
    } else {
        1 + first_marked(marks.drop_first())
    }
}

/// `s` without its first marked element.
pub open spec fn without_first_marked<A>(s: Seq<A>, marks: Seq<bool>) -> Seq<A> {
    if first_marked(marks) < s.len() {
        s.remove(first_marked(marks))
    } else {
        s
    }
}

proof fn lemma_first_marked(marks: Seq<bool>, k: int)
    requires
        0 <= k <= marks.len(),
        forall|i: int| 0 <= i < k ==> !marks[i],
        k < marks.len() ==> marks[k],
    ensures
        first_marked(marks) == k,
    decreases marks.len(),
{
    if k > 0 {
        assert forall|i: int| 0 <= i < k - 1 implies !marks.drop_first()[i] by {
            assert(!marks[i + 1]);
        }
        lemma_first_marked(marks.drop_first(), k - 1);
    }
}

/// Outcome of telling the listeners in `ls`, of which listener `k` answered
/// `Ok` for every `k` before the end, or the first error ended the round.
pub open spec fn populate_outcome<L: RamDiscardListener>(
    ls: Seq<Arc<L>>,
    gpa: u64,
    host_va: u64,
    size: u64,
    r: Result<(), std::io::Error>,
) -> bool {
    match r {
        Ok(_) => forall|i: int|
            0 <= i < ls.len() ==> call_ensures(
                L::notify_populate,
                (&*#[trigger] ls[i], gpa, host_va, size),
                Ok::<(), std::io::Error>(()),
            ),
        Err(e) => exists|k: int|
            {
                &&& 0 <= k < ls.len()
                &&& call_ensures(
                    L::notify_populate,
                    (&*#[trigger] ls[k], gpa, host_va, size),
                    Err::<(), std::io::Error>(e),
                )
                &&& forall|i: int|
                    0 <= i < k ==> call_ensures(
                        L::notify_populate,
                        (&*#[trigger] ls[i], gpa, host_va, size),
                        Ok::<(), std::io::Error>(()),
                    )
            },
    }
}

impl<L: RamDiscardListener> RamDiscardListenerRegistry<L> {
    /// The registered listeners, oldest first.
    pub closed spec fn view(&self) -> Seq<Arc<L>> {
        self.listeners@
    }

    /// A registry without listeners.
    pub fn new() -> (r: Self)
        ensures
            r@ == Seq::<Arc<L>>::empty(),
    {
        Self { listeners: Vec::new() }
    }

    /// Adds a listener after the ones already there.
    pub fn register(&mut self, listener: Arc<L>)
        ensures
            final(self)@ == old(self)@.push(listener),
    {
        self.listeners.push(listener);
    }

    /// Removes the first listener whose mark is set, and says whether there
    /// was one.
    pub fn unregister_marked(&mut self, marks: &Vec<bool>) -> (r: bool)
        requires
            marks@.len() == old(self)@.len(),
        ensures
            r == (first_marked(marks@) < marks@.len()),
            final(self)@ == without_first_marked(old(self)@, marks@),
    {
        let mut i: usize = 0;
        while i < marks.len()
            invariant
                i <= marks@.len(),
                marks@.len() == self@.len(),
                *self == *old(self),
                forall|k: int| 0 <= k < i ==> !marks@[k],
            decreases marks@.len() - i,
        {
            if marks[i] {
                proof {
                    lemma_first_marked(marks@, i as int);
                }
                self.listeners.remove(i);
                return true;
            }
            i = i + 1;
        }
        proof {
            lemma_first_marked(marks@, i as int);
        }
        false
    }

    /// Removes the first listener that is the same allocation as `listener`,
    /// and says whether there was one. Each listener is compared with it, and
    /// the answers are the marks by which one is removed.
    pub fn unregister(&mut self, listener: &Arc<L>) -> (r: bool)
        ensures
            exists|marks: Seq<bool>|
                #![trigger first_marked(marks)]
                {
                    &&& marks.len() == old(self)@.len()
                    &&& forall|i: int|
                        0 <= i < marks.len() ==> compared(
                            old(self)@[i],
                            *listener,
                            #[trigger] marks[i],
                        )
                    &&& forall|i: int| 0 <= i < marks.len() && marks[i] ==> old(self)@[i] == *listener
                    &&& r == (first_marked(marks) < marks.len())
                    &&& final(self)@ == without_first_marked(old(self)@, marks)
                },
    {
        let mut marks: Vec<bool> = Vec::new();
        let mut i: usize = 0;
        while i < self.listeners.len()
            invariant
                i <= self@.len(),
                *self == *old(self),
                marks@.len() == i,
                forall|k: int|
                    0 <= k < i ==> compared(self@[k], *listener, #[trigger] marks@[k]),
                forall|k: int| 0 <= k < i && marks@[k] ==> self@[k] == *listener,
            decreases self@.len() - i,
        {
            marks.push(same_allocation(&self.listeners[i], listener));
            i = i + 1;
        }
        let r: bool = self.unregister_marked(&marks);
        assert(first_marked(marks@) == first_marked(marks@));
        r
    }

    /// A copy of the current listener list, for notifying without holding on
    /// to the registry.
    pub fn snapshot(&self) -> (r: Vec<Arc<L>>)
        ensures
            r@ == self@,
    {
        let mut r: Vec<Arc<L>> = Vec::new();
        let mut i: usize = 0;
        while i < self.listeners.len()
            invariant
                i <= self@.len(),
                r@ == self@.take(i as int),
            decreases self@.len() - i,
        {
            r.push(share(&self.listeners[i]));
            i = i + 1;
            assert(r@ =~= self@.take(i as int));
        }
        assert(self@.take(self@.len() as int) =~= self@);
        r
    }

    /// Tells every listener, oldest first, that a range became shared. The
    /// first error ends the round and is returned.
    pub fn notify_populate(&self, gpa: u64, host_va: u64, size: u64) -> (r: Result<
        (),
        std::io::Error,
    >)
        ensures
            populate_outcome(self@, gpa, host_va, size, r),
    {
        let listeners: Vec<Arc<L>> = self.snapshot();
        let mut i: usize = 0;
        while i < listeners.len()
            invariant
                listeners@ == self@,
                i <= listeners@.len(),
                forall|k: int|
                    0 <= k < i ==> call_ensures(
                        L::notify_populate,
                        (&*#[trigger] listeners@[k], gpa, host_va, size),
                        Ok::<(), std::io::Error>(()),
                    ),
            decreases listeners@.len() - i,
        {
            let answer: Result<(), std::io::Error> = listeners[i].notify_populate(
                gpa,
                host_va,
                size,
            );
            assert(call_ensures(
                L::notify_populate,
                (&*listeners@[i as int], gpa, host_va, size),
                answer,
            ));
            match answer {
                Ok(unit) => {
                    assert(unit == ());
                },
                Err(e) => {
                    return Err(e);
                },
            }
            i = i + 1;
        }
        Ok(())
    }

    /// Tells every listener, oldest first, that a range is about to become
    /// private. A listener cannot refuse: the conversion goes ahead.
    pub fn notify_discard(&self, gpa: u64, size: u64)
        ensures
            forall|i: int|
                0 <= i < self@.len() ==> call_ensures(
                    L::notify_discard,
                    (&*#[trigger] self@[i], gpa, size),
                    (),
                ),
    {
        let listeners: Vec<Arc<L>> = self.snapshot();
        let mut i: usize = 0;
        while i < listeners.len()
            invariant
                listeners@ == self@,
                i <= listeners@.len(),
                forall|k: int|
                    0 <= k < i ==> call_ensures(
                        L::notify_discard,
                        (&*#[trigger] listeners@[k], gpa, size),
                        (),
                    ),
            decreases listeners@.len() - i,
        {
            listeners[i].notify_discard(gpa, size);
            i = i + 1;
        }
    }
}

impl<L: RamDiscardListener> Default for RamDiscardListenerRegistry<L> {
    fn default() -> (r: Self)
        ensures
            r@ == Seq::<Arc<L>>::empty(),
    {
        Self::new()
    }
}

/// The one that is removed is the first that is marked, all others stay in
/// order, and without a mark nothing is removed.
pub proof fn first_marked_is_removed<A>(s: Seq<A>, marks: Seq<bool>, k: int)
    requires
        s.len() == marks.len(),
        0 <= k <= marks.len(),
        forall|i: int| 0 <= i < k ==> !marks[i],
        k < marks.len() ==> marks[k],
    ensures
        first_marked(marks) == k,
        without_first_marked(s, marks) == s.take(k) + (if k < s.len() {
            s.skip(k + 1)
        } else {
            Seq::empty()
        }),
{
    lemma_first_marked(marks, k);
    assert(without_first_marked(s, marks) =~= s.take(k) + (if k < s.len() {
        s.skip(k + 1)
    } else {
        Seq::empty()
    }));
}

} // verus!
