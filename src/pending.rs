//! The queue of finished replies that request tasks fill and the redraw step
//! empties. Callers share it behind one lock, so any run of the program is a
//! sequence of `push` and `drain` calls; the queue keeps, as ghost state,
//! every item ever pushed and every item ever drained.

use vstd::prelude::*;
use crate::text::views;

verus! {

/// One call on the queue, as a model of a run.
pub enum QueueOp {
    Push(Seq<char>),
    Drain,
}

/// What the queue holds after the calls `ops`, from empty.
pub open spec fn held_after(ops: Seq<QueueOp>) -> Seq<Seq<char>>
    decreases ops.len(),
{
    if ops.len() == 0 {
        Seq::empty()
    } else {
        match ops.last() {
            QueueOp::Push(s) => held_after(ops.drop_last()).push(s),
            QueueOp::Drain => Seq::empty(),
        }
    }
}

/// The items pushed by the calls `ops`, in order.
pub open spec fn pushed_by(ops: Seq<QueueOp>) -> Seq<Seq<char>>
    decreases ops.len(),
{
    if ops.len() == 0 {
        Seq::empty()
    } else {
        match ops.last() {
            QueueOp::Push(s) => pushed_by(ops.drop_last()).push(s),
            QueueOp::Drain => pushed_by(ops.drop_last()),
        }
    }
}

/// The items handed out by the drains among the calls `ops`, in order.
pub open spec fn drained_by(ops: Seq<QueueOp>) -> Seq<Seq<char>>
    decreases ops.len(),
{
    if ops.len() == 0 {
        Seq::empty()
    } else {
        match ops.last() {
            QueueOp::Push(_) => drained_by(ops.drop_last()),
            QueueOp::Drain => drained_by(ops.drop_last()) + held_after(ops.drop_last()),
        }
    }
}

/// In any sequence of pushes and drains, the items drained, followed by those
/// still held, are exactly the items pushed, in push order: none is lost and
/// none is handed out twice.
pub proof fn lemma_drained_exactly_once(ops: Seq<QueueOp>)
    ensures
        drained_by(ops) + held_after(ops) == pushed_by(ops),
    decreases ops.len(),
{
    if ops.len() > 0 {
        let prev = ops.drop_last();
        lemma_drained_exactly_once(prev);
        match ops.last() {
            QueueOp::Push(s) => {
                assert(drained_by(prev) + held_after(prev).push(s) =~= (drained_by(prev)
                    + held_after(prev)).push(s));
            },
            QueueOp::Drain => {
                assert(drained_by(ops) + held_after(ops) =~= drained_by(prev) + held_after(prev));
            },
        }
    }
}

/// The finished replies waiting to be shown, oldest first.
pub struct PendingQueue {
    items: Vec<String>,
    sent: Ghost<Seq<Seq<char>>>,
    taken: Ghost<Seq<Seq<char>>>,
}

impl PendingQueue {
    /// The replies waiting, oldest first.
    pub closed spec fn held(&self) -> Seq<Seq<char>> {
        views(self.items@)
    }

    /// Every reply ever pushed, in order.
    pub closed spec fn sent(&self) -> Seq<Seq<char>> {
        self.sent@
    }

    /// Every reply ever drained, in order.
    pub closed spec fn taken(&self) -> Seq<Seq<char>> {
        self.taken@
    }

    /// Every reply pushed is either already drained or still held, in order.
    pub closed spec fn wf(&self) -> bool {
        self.taken@ + views(self.items@) == self.sent@
    }

    /// A well-formed queue has drained, then holds, exactly what was pushed.
    pub proof fn lemma_accounts_for_all(&self)
        requires
            self.wf(),
        ensures
            self.taken() + self.held() == self.sent(),
    {
    }

    pub fn new() -> (r: PendingQueue)
        ensures
            r.wf(),
            r.held() == Seq::<Seq<char>>::empty(),
            r.sent() == Seq::<Seq<char>>::empty(),
            r.taken() == Seq::<Seq<char>>::empty(),
    {
        let r = PendingQueue { items: Vec::new(), sent: Ghost(Seq::empty()), taken: Ghost(Seq::empty()) };
        assert(views(r.items@) =~= Seq::<Seq<char>>::empty());
        r
    }

    /// Appends one finished reply.
    pub fn push(&mut self, reply: String)
        requires
            old(self).wf(),
        ensures
            final(self).wf(),
            final(self).held() == old(self).held().push(reply@),
            final(self).sent() == old(self).sent().push(reply@),
            final(self).taken() == old(self).taken(),
    {
        let ghost s = reply@;
        self.items.push(reply);
        self.sent = Ghost(self.sent@.push(s));
        assert(views(self.items@) =~= views(old(self).items@).push(s));
        assert(self.taken@ + views(self.items@) =~= (old(self).taken@ + views(old(self).items@)).push(s));
    }

    /// Removes and returns every reply held, oldest first.
    pub fn drain(&mut self) -> (r: Vec<String>)
        requires
            old(self).wf(),
        ensures
            final(self).wf(),
            views(r@) == old(self).held(),
            final(self).held() == Seq::<Seq<char>>::empty(),
            final(self).sent() == old(self).sent(),
            final(self).taken() == old(self).taken() + old(self).held(),
            final(self).taken() == final(self).sent(),
    {
        let mut out: Vec<String> = Vec::new();
        out.append(&mut self.items);
        self.taken = Ghost(self.taken@ + views(out@));
        assert(views(self.items@) =~= Seq::<Seq<char>>::empty());
        assert(self.taken@ + views(self.items@) =~= self.taken@);
        out
    }

    /// A copy of the replies held, oldest first.
    pub fn snapshot(&self) -> (r: Vec<String>)
        ensures
            views(r@) == self.held(),
    {
        let mut out: Vec<String> = Vec::new();
        let mut i: usize = 0;
        while i < self.items.len()
            invariant
                i <= self.items@.len(),
                views(out@) == views(self.items@).subrange(0, i as int),
            decreases self.items@.len() - i,
        {
            let item: &String = &self.items[i];
            let copy: String = item.clone();
            assert(copy@ == self.items@[i as int]@);
            let ghost prev = out@;
            out.push(copy);
            assert(views(out@) =~= views(prev).push(self.items@[i as int]@));
            assert(views(out@) =~= views(self.items@).subrange(0, i + 1));
            i = i + 1;
        }
        assert(views(self.items@).subrange(0, i as int) =~= views(self.items@));
        out
    }

    pub fn len(&self) -> (r: usize)
        ensures
            r == self.held().len(),
    {
        self.items.len()
    }
}

} // verus!
