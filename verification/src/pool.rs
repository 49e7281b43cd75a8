//! The bounded-parallelism worker pool.
//!
//! Every stage of the pipeline drains a queue of independent per-page
//! work items through the same pool mechanics: items are popped from the
//! end of a shared queue, each is handed to the stage's task exactly
//! once, and the first failure stops the draining while items already
//! taken still count as attempted.  The pool here is the verified
//! reference of those queue semantics; the surrounding binary may drive
//! the same draining from several operating-system threads, popping under
//! a lock, with the task it passes performing the external invocation.

use vstd::multiset::Multiset;
use vstd::prelude::*;

verus! {

broadcast use {vstd::seq_lib::group_to_multiset_ensures, vstd::multiset::group_multiset_axioms};

/// One unit of per-page work: the file the task reads and the path it
/// writes.  Created by a stage driver, consumed exactly once by the pool.
#[derive(Debug)]
pub struct WorkItem {
    /// Path of the file the task reads.
    pub input: String,
    /// Path of the file the task writes.
    pub output: String,
}

impl WorkItem {
    /// Builds a work item from its input and output paths.
    pub fn new(input: String, output: String) -> (r: WorkItem)
        ensures
            r.input == input,
            r.output == output,
    {
        WorkItem { input, output }
    }

    /// An exact copy of the item.
    pub fn duplicate(&self) -> (r: WorkItem)
        ensures
            r == *self,
    {
        WorkItem { input: self.input.clone(), output: self.output.clone() }
    }
}

/// Drains the work items through the given task and returns the items
/// that were attempted together with the overall outcome.
///
/// Every item is taken from the end of the queue and handed to the task
/// exactly once; no item is duplicated and, as long as every task
/// succeeds, none is omitted.  The first failure ends the draining: the
/// pool then reports that failure, and the attempted items are those
/// taken before and including the failing one.  The worker count only
/// bounds how many tasks may run at once; it never changes which items
/// are processed, so the sequential draining here is the reference for
/// any concurrent driver.
#[allow(unused_variables)]
pub fn run_pool<E, F: Fn(WorkItem) -> Result<(), E>>(
    items: Vec<WorkItem>,
    worker_count: usize,
    task: F,
) -> (r: (Vec<WorkItem>, Result<(), E>))
    requires
        worker_count >= 1,
        forall|i: int| 0 <= i < items@.len() ==> call_requires(task, (items@[i],)),
    ensures
        r.0@.len() <= items@.len(),
        forall|x: WorkItem|
            #[trigger] r.0@.to_multiset().count(x) <= items@.to_multiset().count(x),
        r.1 is Ok ==> r.0@.to_multiset() == items@.to_multiset(),
        r.1 is Ok ==> forall|j: int|
            0 <= j < r.0@.len() ==> call_ensures(task, (r.0@[j],), Result::<(), E>::Ok(())),
        r.1 matches Err(e) ==> 1 <= r.0@.len() && call_ensures(
            task,
            (r.0@[r.0@.len() - 1],),
            Result::<(), E>::Err(e),
        ) && forall|j: int|
            0 <= j < r.0@.len() - 1 ==> call_ensures(task, (r.0@[j],), Result::<(), E>::Ok(())),
{
    let ghost items0 = items@;
    let mut queue = items;
    let mut processed: Vec<WorkItem> = Vec::new();
    #[verifier::loop_isolation(false)]
    while queue.len() > 0
        invariant
            processed@.len() + queue@.len() == items0.len(),
            forall|x: WorkItem|
                #[trigger] processed@.to_multiset().count(x) + queue@.to_multiset().count(x)
                    == items0.to_multiset().count(x),
            forall|i: int| 0 <= i < queue@.len() ==> call_requires(task, (queue@[i],)),
            forall|j: int|
                0 <= j < processed@.len() ==> call_ensures(
                    task,
                    (processed@[j],),
                    Result::<(), E>::Ok(()),
                ),
        decreases queue@.len(),
    {
        let ghost pre_queue = queue@;
        let item = queue.pop().unwrap();
        proof {
            assert(queue@ =~= pre_queue.remove(pre_queue.len() - 1));
        }
        let dup = item.duplicate();
        let ghost pre_processed = processed@;
        let ghost gitem = item;
        let outcome = task(item);
        let ghost gout = outcome;
        proof {
            assert(call_ensures(task, (gitem,), gout));
            assert(gitem == dup);
        }
        processed.push(dup);
        proof {
            assert(processed@ =~= pre_processed.push(dup));
        }
        proof {
            pre_queue.to_multiset_ensures();
            pre_processed.to_multiset_ensures();
            assert(pre_queue[pre_queue.len() - 1] == dup);
            assert(queue@.to_multiset() =~= pre_queue.to_multiset().remove(dup));
            assert(processed@.to_multiset() =~= pre_processed.to_multiset().insert(dup));
            assert(pre_queue.contains(pre_queue[pre_queue.len() - 1]));
            assert(pre_queue.to_multiset().count(dup) > 0);
            assert forall|x: WorkItem|
                #[trigger] processed@.to_multiset().count(x) + queue@.to_multiset().count(x)
                    == items0.to_multiset().count(x) by {
                assert(pre_processed.to_multiset().count(x) + pre_queue.to_multiset().count(x)
                    == items0.to_multiset().count(x));
            }
        }
        match outcome {
            Ok(_) => {
                proof {
                    assert(gout is Ok);
                    assert(gout->Ok_0 == ());
                    assert(gout == Result::<(), E>::Ok(()));
                    assert(call_ensures(task, (dup,), Result::<(), E>::Ok(())));
                    assert forall|j: int| 0 <= j < processed@.len() implies call_ensures(
                        task,
                        (processed@[j],),
                        Result::<(), E>::Ok(()),
                    ) by {
                        if j < processed@.len() - 1 {
                            assert(processed@[j] == pre_processed[j]);
                        } else {
                            assert(processed@[j] == dup);
                        }
                    }
                }
            },
            Err(e) => {
                proof {
                    assert(pre_queue.len() >= 1);
                    assert(pre_processed.len() + pre_queue.len() == items0.len());
                    assert(processed@.len() == pre_processed.len() + 1);
                    assert(processed@.len() <= items0.len());
                    assert forall|x: WorkItem|
                        #[trigger] processed@.to_multiset().count(x) <= items0.to_multiset().count(
                            x,
                        ) by {
                        assert(processed@.to_multiset().count(x) + queue@.to_multiset().count(x)
                            == items0.to_multiset().count(x));
                    }
                }
                return (processed, Err(e));
            },
        }
    }
    proof {
        assert forall|x: WorkItem|
            #[trigger] processed@.to_multiset().count(x) == items0.to_multiset().count(x) by {
            if queue@.to_multiset().count(x) > 0 {
                queue@.to_multiset_ensures();
                assert(queue@.contains(x));
            }
        }
        assert(processed@.to_multiset() =~= items0.to_multiset());
    }
    (processed, Ok(()))
}

/// Relies on `num_cpus::get`: the number of logical processors available
/// to the process, documented to always be at least one.
#[verifier::external_body]
fn cpu_count() -> (r: usize)
    ensures
        r >= 1,
{
    num_cpus::get()
}

/// The default pool size: the number of available processing units, with
/// a floor of one worker.
pub fn default_worker_count() -> (r: usize)
    ensures
        r >= 1,
{
    cpu_count()
}

} // verus!
