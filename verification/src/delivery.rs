//! The delivery client model: a bounded, first-in-first-out outbound queue
//! in front of the broker connection. Sends enter at the back; the broker
//! acknowledges, rejects or times out the message at the front. A full
//! queue is a backpressure signal — the send fails fast with a typed error
//! and the untouched message back in the caller's hands, never a silent
//! drop — and the queue order is the call order, so per-partition delivery
//! order matches it.

use vstd::prelude::*;

use crate::error::ProduceError;
use crate::wire::EncodedPayload;

verus! {

/// One message to deliver: topic, optional key, the encoded payload, an
/// optional explicit partition, and optional headers.
pub struct ProduceRequest {
    pub topic: Vec<u8>,
    pub key: Option<Vec<u8>>,
    pub payload: EncodedPayload,
    pub partition: Option<i32>,
    pub headers: Option<Vec<(Vec<u8>, Vec<u8>)>>,
}

/// The outcome of one produce call: the partition and offset the broker
/// acknowledged, or a typed failure with the original message, when one
/// was in flight, for inspection or resubmission.
pub enum ProduceResult {
    Delivered { partition: i32, offset: i64 },
    Failed { error: ProduceError, original: Option<ProduceRequest> },
}

/// The delivery client: the bounded outbound queue, front at index zero.
pub struct DeliveryClient {
    pub capacity: usize,
    pub queue: Vec<ProduceRequest>,
}

impl DeliveryClient {
    /// The queue never outgrows its fixed capacity.
    pub open spec fn wf(self) -> bool {
        &&& self.queue@.len() <= self.capacity
        &&& self.capacity >= 1
    }

    /// A client with the given queue capacity and an empty queue.
    pub fn new(capacity: usize) -> (c: DeliveryClient)
        requires
            capacity >= 1,
        ensures
            c.wf(),
            c.capacity == capacity,
            c.queue@.len() == 0,
    {
        DeliveryClient { capacity, queue: Vec::new() }
    }

    /// How many messages are in flight.
    pub fn pending(&self) -> (r: usize)
        ensures
            r == self.queue@.len(),
    {
        self.queue.len()
    }

    /// Accept a message at the back of the queue, or, when the queue is
    /// at capacity, fail fast with QueueFull and hand the message back
    /// untouched. The queue is never silently shortened and the message
    /// never dropped.
    pub fn try_enqueue(&mut self, req: ProduceRequest) -> (r: Result<(), (ProduceError, ProduceRequest)>)
        requires
            old(self).wf(),
        ensures
            final(self).wf(),
            final(self).capacity == old(self).capacity,
            r is Ok <==> old(self).queue@.len() < old(self).capacity,
            r is Ok ==> final(self).queue@ == old(self).queue@.push(req),
            r matches Err((e, orig)) ==> {
                &&& e is QueueFull
                &&& orig == req
                &&& final(self).queue@ == old(self).queue@
            },
    {
        if self.queue.len() < self.capacity {
            self.queue.push(req);
            Ok(())
        } else {
            Err((ProduceError::QueueFull, req))
        }
    }

    /// The broker acknowledged the front message at a partition and
    /// offset: report the delivery and retire the message.
    pub fn on_ack(&mut self, partition: i32, offset: i64) -> (r: Option<ProduceResult>)
        requires
            old(self).wf(),
        ensures
            final(self).wf(),
            final(self).capacity == old(self).capacity,
            old(self).queue@.len() == 0 ==> r is None && final(self).queue@ == old(self).queue@,
            old(self).queue@.len() > 0 ==> {
                &&& final(self).queue@ == old(self).queue@.skip(1)
                &&& r == Some((ProduceResult::Delivered { partition, offset }))
            },
    {
        if self.queue.len() == 0 {
            None
        } else {
            let _front = self.queue.remove(0);
            assert(self.queue@ =~= old(self).queue@.skip(1));
            Some(ProduceResult::Delivered { partition, offset })
        }
    }

    /// The broker rejected the front message: report the typed failure
    /// with the original message attached for inspection or resubmission.
    pub fn on_rejected(&mut self, reason: Vec<u8>) -> (r: Option<ProduceResult>)
        requires
            old(self).wf(),
        ensures
            final(self).wf(),
            final(self).capacity == old(self).capacity,
            old(self).queue@.len() == 0 ==> r is None && final(self).queue@ == old(self).queue@,
            old(self).queue@.len() > 0 ==> {
                &&& final(self).queue@ == old(self).queue@.skip(1)
                &&& r == Some(
                    (ProduceResult::Failed {
                        error: ProduceError::BrokerRejected { reason },
                        original: Some(old(self).queue@[0]),
                    }),
                )
            },
    {
        if self.queue.len() == 0 {
            None
        } else {
            let front = self.queue.remove(0);
            assert(self.queue@ =~= old(self).queue@.skip(1));
            Some(
                ProduceResult::Failed {
                    error: ProduceError::BrokerRejected { reason },
                    original: Some(front),
                },
            )
        }
    }

    /// The delivery timeout fired before the broker acknowledged the
    /// front message: report the timeout with the original message
    /// attached, rather than blocking forever.
    pub fn on_timeout(&mut self) -> (r: Option<ProduceResult>)
        requires
            old(self).wf(),
        ensures
            final(self).wf(),
            final(self).capacity == old(self).capacity,
            old(self).queue@.len() == 0 ==> r is None && final(self).queue@ == old(self).queue@,
            old(self).queue@.len() > 0 ==> {
                &&& final(self).queue@ == old(self).queue@.skip(1)
                &&& r == Some(
                    (ProduceResult::Failed {
                        error: ProduceError::DeliveryTimeout,
                        original: Some(old(self).queue@[0]),
                    }),
                )
            },
    {
        if self.queue.len() == 0 {
            None
        } else {
            let front = self.queue.remove(0);
            assert(self.queue@ =~= old(self).queue@.skip(1));
            Some(
                ProduceResult::Failed {
                    error: ProduceError::DeliveryTimeout,
                    original: Some(front),
                },
            )
        }
    }
}

} // verus!
