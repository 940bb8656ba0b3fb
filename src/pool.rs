use std::collections::VecDeque;
use vstd::prelude::*;

use crate::error::ThreadError;

verus! {

/// An entry of the job queue: a job to run, or the signal that makes one
/// worker stop.
pub enum Message<J> {
    NewJob(J),
    Terminate,
}

/// How many stop signals a run of messages holds.
pub open spec fn terminates<J>(s: Seq<Message<J>>) -> nat
    decreases s.len(),
{
    if s.len() == 0 {
        0
    } else {
        terminates(s.drop_last()) + (if s.last() is Terminate {
            1nat
        } else {
            0nat
        })
    }
}

/// Every job stands ahead of every stop signal.
pub open spec fn jobs_first<J>(s: Seq<Message<J>>) -> bool {
    forall|i: int, j: int|
        0 <= i < j < s.len() && (#[trigger] s[i]) is Terminate ==> (#[trigger] s[j]) is Terminate
}

/// `n` stop signals.
pub open spec fn stop_signals<J>(n: nat) -> Seq<Message<J>> {
    Seq::new(n, |i: int| Message::Terminate)
}

proof fn lemma_terminates_concat<J>(a: Seq<Message<J>>, b: Seq<Message<J>>)
    ensures
        terminates(a + b) == terminates(a) + terminates(b),
    decreases b.len(),
{
    if b.len() > 0 {
        lemma_terminates_concat(a, b.drop_last());
        assert((a + b).drop_last() =~= a + b.drop_last());
    } else {
        assert(a + b =~= a);
    }
}

proof fn lemma_terminates_front<J>(s: Seq<Message<J>>)
    requires
        s.len() > 0,
    ensures
        terminates(s) == terminates(s.drop_first()) + (if s[0] is Terminate {
            1nat
        } else {
            0nat
        }),
{
    lemma_terminates_concat(seq![s[0]], s.drop_first());
    assert(seq![s[0]] + s.drop_first() =~= s);
    lemma_terminates_one(s[0]);
}

proof fn lemma_terminates_one<J>(m: Message<J>)
    ensures
        terminates(seq![m]) == (if m is Terminate {
            1nat
        } else {
            0nat
        }),
{
    let s = seq![m];
    assert(s.drop_last() =~= Seq::<Message<J>>::empty());
    assert(s.last() == m);
    assert(terminates(Seq::<Message<J>>::empty()) == 0);
    assert(terminates(s) == terminates(s.drop_last()) + (if s.last() is Terminate {
        1nat
    } else {
        0nat
    }));
}

proof fn lemma_stop_signals<J>(n: nat)
    ensures
        terminates(stop_signals::<J>(n)) == n,
    decreases n,
{
    if n > 0 {
        lemma_stop_signals::<J>((n - 1) as nat);
        assert(stop_signals::<J>(n).drop_last() =~= stop_signals::<J>((n - 1) as nat));
    }
}

/// The shared part of a worker pool: the queue of messages, FIFO, and the
/// number of workers it serves. Workers take messages with `next`; after
/// `shutdown` the queue ends with one stop signal per worker.
pub struct PoolCore<J> {
    queue: VecDeque<Message<J>>,
    workers: usize,
    closed: bool,
    stopped: usize,
    sent: Ghost<Seq<Message<J>>>,
    taken: Ghost<Seq<Message<J>>>,
}

impl<J> PoolCore<J> {
    /// The messages waiting, oldest first.
    pub closed spec fn queue(&self) -> Seq<Message<J>> {
        self.queue@
    }

    pub closed spec fn workers(&self) -> nat {
        self.workers as nat
    }

    /// Whether `shutdown` was called.
    pub closed spec fn is_closed(&self) -> bool {
        self.closed
    }

    /// How many workers took their stop signal.
    pub closed spec fn stopped(&self) -> nat {
        self.stopped as nat
    }

    /// Every message ever put in the queue, in order.
    pub closed spec fn sent(&self) -> Seq<Message<J>> {
        self.sent@
    }

    /// Every message ever taken from the queue, in order.
    pub closed spec fn taken(&self) -> Seq<Message<J>> {
        self.taken@
    }

    pub closed spec fn wf(&self) -> bool {
        &&& self.workers >= 1
        &&& self.taken@ + self.queue@ == self.sent@
        &&& jobs_first(self.queue@)
        &&& self.stopped <= self.workers
        &&& !self.closed ==> terminates(self.queue@) == 0 && self.stopped == 0
        &&& self.closed ==> terminates(self.queue@) + self.stopped == self.workers
        &&& self.stopped > 0 ==> forall|i: int|
            0 <= i < self.queue@.len() ==> (#[trigger] self.queue@[i]) is Terminate
    }

    /// A pool of `size` workers; none is an error.
    pub fn new(size: usize) -> (r: Result<PoolCore<J>, ThreadError>)
        ensures
            r is Err <==> size == 0,
            r matches Err(e) ==> e.kind@ == "thread_pool"@,
            r matches Ok(p) ==> p.wf() && p.workers() == size && p.queue() == Seq::<
                Message<J>,
            >::empty() && !p.is_closed() && p.sent() == Seq::<Message<J>>::empty(),
    {
        if size == 0 {
            return Err(ThreadError::new("thread_pool", "The thread pool size must be greater than 0"));
        }
        Ok(
            PoolCore {
                queue: VecDeque::new(),
                workers: size,
                closed: false,
                stopped: 0,
                sent: Ghost(Seq::empty()),
                taken: Ghost(Seq::empty()),
            },
        )
    }

    /// The number of workers the pool serves.
    pub fn worker_count(&self) -> (r: usize)
        ensures
            r == self.workers(),
    {
        self.workers
    }

    /// Queues a job, unless the pool was shut down: the job then comes back.
    pub fn submit(&mut self, job: J) -> (r: Result<(), J>)
        requires
            old(self).wf(),
        ensures
            final(self).wf(),
            final(self).workers() == old(self).workers(),
            final(self).is_closed() == old(self).is_closed(),
            final(self).taken() == old(self).taken(),
            !old(self).is_closed() ==> r is Ok && final(self).queue() == old(self).queue().push(
                Message::NewJob(job),
            ) && final(self).sent() == old(self).sent().push(Message::NewJob(job)),
            old(self).is_closed() ==> r == Err::<(), J>(job) && final(self).queue()
                == old(self).queue() && final(self).sent() == old(self).sent(),
    {
        if self.closed {
            return Err(job);
        }
        proof {
            lemma_terminates_concat(self.queue@, seq![Message::NewJob(job)]);
            lemma_terminates_one(Message::NewJob(job));
            assert(self.queue@ + seq![Message::NewJob(job)] =~= self.queue@.push(Message::NewJob(job)));
            assert(self.taken@ + self.queue@.push(Message::NewJob(job)) =~= self.sent@.push(
                Message::NewJob(job),
            ));
        }
        self.queue.push_back(Message::NewJob(job));
        self.sent = Ghost(self.sent@.push(Message::NewJob(job)));
        proof {
            let q = self.queue@;
            assert(seq![Message::<J>::NewJob(job)].drop_last() =~= Seq::<Message<J>>::empty());
            assert forall|i: int, j: int|
                0 <= i < j < q.len() && (#[trigger] q[i]) is Terminate implies (#[trigger] q[j]) is Terminate by {
                if j < q.len() - 1 {
                    assert(old(self).queue@[i] == q[i]);
                    assert(old(self).queue@[j] == q[j]);
                } else {
                    assert(q[i] == old(self).queue@[i]);
                    lemma_no_terminate(old(self).queue@, i);
                }
            }
        }
        Ok(())
    }

    /// Queues one stop signal per worker, behind every job already queued.
    /// A second call does nothing.
    pub fn shutdown(&mut self)
        requires
            old(self).wf(),
        ensures
            final(self).wf(),
            final(self).is_closed(),
            final(self).workers() == old(self).workers(),
            final(self).taken() == old(self).taken(),
            !old(self).is_closed() ==> final(self).queue() == old(self).queue() + stop_signals(
                old(self).workers(),
            ) && final(self).sent() == old(self).sent() + stop_signals(old(self).workers()),
            old(self).is_closed() ==> final(self).queue() == old(self).queue() && final(self).sent()
                == old(self).sent(),
    {
        if self.closed {
            return;
        }
        let ghost q0 = self.queue@;
        let mut k: usize = 0;
        while k < self.workers
            invariant
                !self.closed,
                self.workers >= 1,
                self.stopped == 0,
                k <= self.workers,
                self.queue@ == q0 + stop_signals::<J>(k as nat),
                self.taken@ + self.queue@ == self.sent@,
                self.sent@ == old(self).sent@ + stop_signals::<J>(k as nat),
                self.taken@ == old(self).taken@,
                self.workers == old(self).workers,
                q0 == old(self).queue@,
                terminates(q0) == 0,
                jobs_first(q0),
            decreases self.workers - k,
        {
            self.queue.push_back(Message::Terminate);
            self.sent = Ghost(self.sent@.push(Message::Terminate));
            k += 1;
            assert(self.queue@ =~= q0 + stop_signals::<J>(k as nat));
            assert(self.sent@ =~= old(self).sent@ + stop_signals::<J>(k as nat));
            assert(self.taken@ + self.queue@ =~= self.sent@);
        }
        self.closed = true;
        proof {
            lemma_terminates_concat(q0, stop_signals::<J>(self.workers as nat));
            lemma_stop_signals::<J>(self.workers as nat);
            let q = self.queue@;
            assert forall|i: int, j: int|
                0 <= i < j < q.len() && (#[trigger] q[i]) is Terminate implies (#[trigger] q[j]) is Terminate by {
                if i < q0.len() {
                    assert(q[i] == q0[i]);
                    lemma_no_terminate(q0, i);
                }
            }
        }
    }

    /// The oldest message, taken out of the queue; `None` when none waits.
    pub fn next(&mut self) -> (r: Option<Message<J>>)
        requires
            old(self).wf(),
        ensures
            final(self).wf(),
            final(self).workers() == old(self).workers(),
            final(self).is_closed() == old(self).is_closed(),
            final(self).sent() == old(self).sent(),
            old(self).queue().len() == 0 ==> r is None && final(self).queue() == old(self).queue()
                && final(self).taken() == old(self).taken(),
            old(self).queue().len() > 0 ==> r == Some(old(self).queue()[0]) && final(self).queue()
                == old(self).queue().drop_first() && final(self).taken() == old(self).taken().push(
                old(self).queue()[0],
            ),
            final(self).stopped() == old(self).stopped() + (if r matches Some(Message::Terminate) {
                1nat
            } else {
                0nat
            }),
    {
        let ghost q0 = self.queue@;
        match self.queue.pop_front() {
            None => None,
            Some(m) => {
                let ghost q = self.queue@;
                proof {
                    lemma_terminates_front(q0);
                    assert(q0.drop_first() =~= q0.subrange(1, q0.len() as int));
                    assert(self.taken@.push(q0[0]) + q0.drop_first() =~= self.taken@ + q0);
                    assert forall|i: int, j: int|
                        0 <= i < j < q.len() && (#[trigger] q[i]) is Terminate implies (
                        #[trigger] q[j]) is Terminate by {
                        assert(q[i] == q0[i + 1]);
                        assert(q[j] == q0[j + 1]);
                    }
                }
                self.taken = Ghost(self.taken@.push(q0[0]));
                if let Message::Terminate = m {
                    proof {
                        assert forall|i: int| 0 <= i < q.len() implies (#[trigger] q[i]) is Terminate by {
                            assert(q[i] == q0[i + 1]);
                            assert(q0[0] is Terminate);
                        }
                    }
                    self.stopped = self.stopped + 1;
                }
                Some(m)
            },
        }
    }
}

/// Messages are taken in the order they were sent, each at most once: what was
/// taken, followed by what still waits, is exactly what was sent. Once the queue
/// is empty, every job submitted was taken exactly once.
pub proof fn lemma_each_message_once<J>(p: &PoolCore<J>)
    requires
        p.wf(),
    ensures
        p.taken() + p.queue() == p.sent(),
        p.queue().len() == 0 ==> p.taken() == p.sent(),
{
    if p.queue().len() == 0 {
        assert(p.taken() + p.queue() =~= p.taken());
    }
}

/// After `shutdown`, every job still queued leaves the queue before any stop
/// signal; stop signals taken and still queued make one per worker; and once
/// every worker took its signal, no job is left behind.
pub proof fn lemma_drain<J>(p: &PoolCore<J>)
    requires
        p.wf(),
        p.is_closed(),
    ensures
        jobs_first(p.queue()),
        terminates(p.queue()) + p.stopped() == p.workers(),
        p.stopped() == p.workers() ==> p.queue().len() == 0,
        p.stopped() == p.workers() ==> p.taken() == p.sent(),
{
    if p.stopped() == p.workers() {
        lemma_all_terminates(p.queue());
        lemma_each_message_once(p);
    }
}

proof fn lemma_all_terminates<J>(s: Seq<Message<J>>)
    requires
        forall|i: int| 0 <= i < s.len() ==> (#[trigger] s[i]) is Terminate,
    ensures
        terminates(s) == s.len(),
    decreases s.len(),
{
    if s.len() > 0 {
        lemma_all_terminates(s.drop_last());
    }
}

proof fn lemma_no_terminate<J>(s: Seq<Message<J>>, i: int)
    requires
        terminates(s) == 0,
        0 <= i < s.len(),
    ensures
        s[i] is NewJob,
    decreases s.len(),
{
    if i < s.len() - 1 {
        lemma_no_terminate(s.drop_last(), i);
    }
}

} // verus!
