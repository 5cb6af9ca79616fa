//! A fixed-capacity ring queue and the worker-pool logic built on top of it.
//!
//! The queue is a circular buffer with a read cursor (`head`) and a write
//! cursor (`tail`); one slot is sacrificed as a guard so that `head == tail`
//! means empty and "next of `tail` is `head`" means full. The pool keeps a
//! queue of pending tasks, a shutdown flag, and the decision rule that each
//! worker follows when it polls the queue.

pub mod laws;
pub mod pool;
pub mod ring;
