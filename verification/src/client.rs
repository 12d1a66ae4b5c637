use vstd::prelude::*;

use crate::framing::{encode_message_data, message_data_frame};

verus! {

/// Per-client session state: the client's subscriptions, and its bounded
/// outbound frame queue. The subscription map is mutated only on behalf of
/// the client's own read task; fan-out consults it.
#[derive(Debug)]
pub struct ClientSession {
    id: u32,
    subscriptions: Vec<(u32, u64)>,
    graph_subscribed: bool,
    outbound: Vec<Vec<u8>>,
    backlog_capacity: usize,
}

/// The queue after one frame is enqueued under the drop-oldest policy: a
/// full queue loses its oldest frame to make room.
pub open spec fn enqueue_spec(q: Seq<Seq<u8>>, f: Seq<u8>, cap: int) -> Seq<Seq<u8>> {
    if q.len() < cap {
        q.push(f)
    } else {
        q.skip(1).push(f)
    }
}

/// The queue after every frame of `frames` is enqueued in order.
pub open spec fn enqueue_all_spec(q: Seq<Seq<u8>>, frames: Seq<Seq<u8>>, cap: int) -> Seq<Seq<u8>>
    decreases frames.len(),
{
    if frames.len() == 0 {
        q
    } else {
        enqueue_spec(enqueue_all_spec(q, frames.drop_last(), cap), frames.last(), cap)
    }
}

impl ClientSession {
    /// The client id, for use in specifications.
    pub closed spec fn spec_id(&self) -> u32 {
        self.id
    }

    /// The subscription map, as pairs of subscription id and channel id, for
    /// use in specifications.
    pub closed spec fn spec_subscriptions(&self) -> Seq<(u32, u64)> {
        self.subscriptions@
    }

    /// The outbound queue, oldest frame first, for use in specifications.
    pub closed spec fn spec_outbound(&self) -> Seq<Seq<u8>> {
        Seq::new(self.outbound@.len(), |i: int| self.outbound@[i]@)
    }

    /// The outbound queue bound, for use in specifications.
    pub closed spec fn spec_backlog_capacity(&self) -> int {
        self.backlog_capacity as int
    }

    /// True if the client subscribed to connection-graph updates, for use
    /// in specifications.
    pub closed spec fn spec_graph_subscribed(&self) -> bool {
        self.graph_subscribed
    }

    /// True if the client has a subscription with this id, for use in
    /// specifications.
    pub open spec fn has_subscription_id(&self, sub_id: u32) -> bool {
        exists|i: int|
            0 <= i < self.spec_subscriptions().len() && (#[trigger] self.spec_subscriptions()[
                i
            ]).0 == sub_id
    }

    /// True if the client subscribes to this channel, for use in
    /// specifications.
    pub open spec fn is_subscribed(&self, channel_id: u64) -> bool {
        exists|i: int|
            0 <= i < self.spec_subscriptions().len() && (#[trigger] self.spec_subscriptions()[
                i
            ]).1 == channel_id
    }

    /// Well-formedness: subscription ids are distinct, and the queue
    /// respects its bound.
    pub open spec fn wf(&self) -> bool {
        &&& forall|i: int, j: int|
            #![trigger self.spec_subscriptions()[i], self.spec_subscriptions()[j]]
            0 <= i < j < self.spec_subscriptions().len() ==> self.spec_subscriptions()[i].0
                != self.spec_subscriptions()[j].0
        &&& self.spec_outbound().len() <= self.spec_backlog_capacity()
        &&& self.spec_backlog_capacity() >= 1
    }

    /// Creates session state for a newly connected client.
    pub fn new(id: u32, backlog_capacity: usize) -> (r: Self)
        requires
            backlog_capacity >= 1,
        ensures
            r.spec_id() == id,
            r.spec_subscriptions().len() == 0,
            r.spec_outbound().len() == 0,
            r.spec_backlog_capacity() == backlog_capacity,
            !r.spec_graph_subscribed(),
            r.wf(),
    {
        let r = ClientSession {
            id,
            subscriptions: Vec::new(),
            graph_subscribed: false,
            outbound: Vec::new(),
            backlog_capacity,
        };
        proof {
            assert(r.spec_outbound() =~= Seq::<Seq<u8>>::empty());
        }
        r
    }

    /// The client id.
    pub fn id(&self) -> (r: u32)
        ensures
            r == self.spec_id(),
    {
        self.id
    }

    /// Adds a subscription mapping a client-chosen id to a channel.
    /// Accepted exactly when the subscription id is not already in use.
    pub fn subscribe(&mut self, sub_id: u32, channel_id: u64) -> (accepted: bool)
        requires
            old(self).wf(),
        ensures
            final(self).wf(),
            final(self).spec_id() == old(self).spec_id(),
            final(self).spec_outbound() == old(self).spec_outbound(),
            final(self).spec_backlog_capacity() == old(self).spec_backlog_capacity(),
            final(self).spec_graph_subscribed() == old(self).spec_graph_subscribed(),
            accepted <==> !old(self).has_subscription_id(sub_id),
            accepted ==> final(self).spec_subscriptions() == old(self).spec_subscriptions().push(
                (sub_id, channel_id),
            ),
            !accepted ==> final(self).spec_subscriptions() == old(self).spec_subscriptions(),
    {
        let n = self.subscriptions.len();
        let mut i: usize = 0;
        while i < n
            invariant
                self == old(self),
                old(self).wf(),
                n == self.subscriptions@.len(),
                0 <= i <= n,
                forall|k: int| 0 <= k < i ==> (#[trigger] self.subscriptions@[k]).0 != sub_id,
            decreases n - i,
        {
            if self.subscriptions[i].0 == sub_id {
                proof {
                    assert((self.spec_subscriptions()[i as int]).0 == sub_id);
                }
                return false;
            }
            i = i + 1;
        }
        let ghost pre = self.subscriptions@;
        self.subscriptions.push((sub_id, channel_id));
        proof {
            assert forall|p: int, q: int|
                #![trigger self.spec_subscriptions()[p], self.spec_subscriptions()[q]]
                0 <= p < q < self.spec_subscriptions().len() implies self.spec_subscriptions()[
                p
            ].0 != self.spec_subscriptions()[q].0 by {
                if q == pre.len() {
                    assert(self.spec_subscriptions()[p] == pre[p]);
                } else {
                    assert(old(self).spec_subscriptions()[p].0 != old(self).spec_subscriptions()[
                        q
                    ].0);
                }
            }
            assert(final(self).spec_outbound() =~= old(self).spec_outbound());
        }
        true
    }

    /// Removes the subscription with this id, if there is one. Returns
    /// whether one was removed.
    pub fn unsubscribe(&mut self, sub_id: u32) -> (removed: bool)
        requires
            old(self).wf(),
        ensures
            final(self).wf(),
            final(self).spec_id() == old(self).spec_id(),
            final(self).spec_outbound() == old(self).spec_outbound(),
            final(self).spec_backlog_capacity() == old(self).spec_backlog_capacity(),
            final(self).spec_graph_subscribed() == old(self).spec_graph_subscribed(),
            removed <==> old(self).has_subscription_id(sub_id),
            !final(self).has_subscription_id(sub_id),
            !removed ==> final(self).spec_subscriptions() == old(self).spec_subscriptions(),
            removed ==> (exists|i: int|
                0 <= i < old(self).spec_subscriptions().len() && old(self).spec_subscriptions()[
                    i
                ].0 == sub_id && final(self).spec_subscriptions() == old(
                    self,
                ).spec_subscriptions().remove(i)),
    {
        let n = self.subscriptions.len();
        let mut i: usize = 0;
        while i < n
            invariant
                self == old(self),
                old(self).wf(),
                n == self.subscriptions@.len(),
                0 <= i <= n,
                forall|k: int| 0 <= k < i ==> (#[trigger] self.subscriptions@[k]).0 != sub_id,
            decreases n - i,
        {
            if self.subscriptions[i].0 == sub_id {
                let ghost pre = self.subscriptions@;
                self.subscriptions.remove(i);
                proof {
                    assert(pre[i as int].0 == sub_id);
                    assert forall|k: int|
                        0 <= k < self.subscriptions@.len() implies (
                        #[trigger] self.subscriptions@[k]).0 != sub_id by {
                        if k < i {
                            assert(self.subscriptions@[k] == pre[k]);
                        } else {
                            assert(self.subscriptions@[k] == pre[k + 1]);
                            assert(old(self).spec_subscriptions()[i as int].0 != old(
                                self,
                            ).spec_subscriptions()[k + 1].0);
                        }
                    }
                    assert forall|p: int, q: int|
                        #![trigger self.spec_subscriptions()[p], self.spec_subscriptions()[q]]
                        0 <= p < q < self.spec_subscriptions().len() implies self.spec_subscriptions()[
                        p
                    ].0 != self.spec_subscriptions()[q].0 by {
                        let p0: int = if p < i {
                            p
                        } else {
                            p + 1
                        };
                        let q0: int = if q < i {
                            q
                        } else {
                            q + 1
                        };
                        assert(self.subscriptions@[p] == pre[p0] && self.subscriptions@[q]
                            == pre[q0]);
                        assert(old(self).spec_subscriptions()[p0].0 != old(
                            self,
                        ).spec_subscriptions()[q0].0);
                    }
                    assert(final(self).spec_outbound() =~= old(self).spec_outbound());
                    assert(0 <= i < old(self).spec_subscriptions().len() && old(
                        self,
                    ).spec_subscriptions()[i as int].0 == sub_id);
                    assert(self.subscriptions@ == pre.remove(i as int));
                }
                return true;
            }
            i = i + 1;
        }
        false
    }

    /// Subscribes the client to connection-graph updates.
    pub fn subscribe_connection_graph(&mut self)
        requires
            old(self).wf(),
        ensures
            final(self).wf(),
            final(self).spec_graph_subscribed(),
            final(self).spec_id() == old(self).spec_id(),
            final(self).spec_subscriptions() == old(self).spec_subscriptions(),
            final(self).spec_outbound() == old(self).spec_outbound(),
            final(self).spec_backlog_capacity() == old(self).spec_backlog_capacity(),
    {
        self.graph_subscribed = true;
        proof {
            assert(final(self).spec_outbound() =~= old(self).spec_outbound());
            assert(self.subscriptions@ == old(self).subscriptions@);
            assert forall|p: int, q: int|
                #![trigger self.spec_subscriptions()[p], self.spec_subscriptions()[q]]
                0 <= p < q < self.spec_subscriptions().len() implies self.spec_subscriptions()[
                p
            ].0 != self.spec_subscriptions()[q].0 by {
                assert(old(self).spec_subscriptions()[p].0 != old(self).spec_subscriptions()[
                    q
                ].0);
            }
        }
    }

    /// Unsubscribes the client from connection-graph updates.
    pub fn unsubscribe_connection_graph(&mut self)
        requires
            old(self).wf(),
        ensures
            final(self).wf(),
            !final(self).spec_graph_subscribed(),
            final(self).spec_id() == old(self).spec_id(),
            final(self).spec_subscriptions() == old(self).spec_subscriptions(),
            final(self).spec_outbound() == old(self).spec_outbound(),
            final(self).spec_backlog_capacity() == old(self).spec_backlog_capacity(),
    {
        self.graph_subscribed = false;
        proof {
            assert(final(self).spec_outbound() =~= old(self).spec_outbound());
            assert(self.subscriptions@ == old(self).subscriptions@);
            assert forall|p: int, q: int|
                #![trigger self.spec_subscriptions()[p], self.spec_subscriptions()[q]]
                0 <= p < q < self.spec_subscriptions().len() implies self.spec_subscriptions()[
                p
            ].0 != self.spec_subscriptions()[q].0 by {
                assert(old(self).spec_subscriptions()[p].0 != old(self).spec_subscriptions()[
                    q
                ].0);
            }
        }
    }

    /// The fan-out decision for a connection-graph update document: the
    /// document reaches this client exactly when it subscribed to
    /// connection-graph updates.
    pub fn wants_connection_graph(&self) -> (r: bool)
        ensures
            r == self.spec_graph_subscribed(),
    {
        self.graph_subscribed
    }

    /// The first subscription id mapped to this channel, if the client
    /// subscribes to it.
    pub fn subscription_id_for(&self, channel_id: u64) -> (r: Option<u32>)
        ensures
            r is Some <==> self.is_subscribed(channel_id),
            r matches Some(sid) ==> (exists|i: int|
                0 <= i < self.spec_subscriptions().len() && self.spec_subscriptions()[i] == (
                    sid,
                    channel_id,
                )),
    {
        let n = self.subscriptions.len();
        let mut i: usize = 0;
        while i < n
            invariant
                n == self.subscriptions@.len(),
                0 <= i <= n,
                forall|k: int| 0 <= k < i ==> (#[trigger] self.subscriptions@[k]).1 != channel_id,
            decreases n - i,
        {
            if self.subscriptions[i].1 == channel_id {
                proof {
                    assert(self.spec_subscriptions()[i as int] == (
                        self.subscriptions@[i as int].0,
                        channel_id,
                    ));
                }
                return Some(self.subscriptions[i].0);
            }
            i = i + 1;
        }
        None
    }

    /// The fan-out decision for one published message: the message-data
    /// frame for this client exactly when it holds at least one subscription
    /// mapped to the channel, and nothing otherwise.
    pub fn message_frame(&self, channel_id: u64, log_time: u64, payload: &Vec<u8>) -> (r: Option<
        Vec<u8>,
    >)
        ensures
            r is Some <==> self.is_subscribed(channel_id),
            r matches Some(f) ==> (exists|sid: u32|
                (exists|i: int|
                    0 <= i < self.spec_subscriptions().len() && self.spec_subscriptions()[i] == (
                        sid,
                        channel_id,
                    )) && f@ == message_data_frame(sid, log_time, payload@)),
    {
        match self.subscription_id_for(channel_id) {
            Some(sid) => Some(encode_message_data(sid, log_time, payload)),
            None => None,
        }
    }

    /// Enqueues one outbound frame under the drop-oldest policy: a full
    /// queue loses its oldest frame. Returns whether a frame was dropped, so
    /// the caller can raise an overflow status once per episode. Publishing
    /// never blocks on the queue.
    pub fn enqueue(&mut self, frame: Vec<u8>) -> (dropped: bool)
        requires
            old(self).wf(),
        ensures
            final(self).wf(),
            final(self).spec_id() == old(self).spec_id(),
            final(self).spec_subscriptions() == old(self).spec_subscriptions(),
            final(self).spec_backlog_capacity() == old(self).spec_backlog_capacity(),
            final(self).spec_graph_subscribed() == old(self).spec_graph_subscribed(),
            final(self).spec_outbound() == enqueue_spec(
                old(self).spec_outbound(),
                frame@,
                old(self).spec_backlog_capacity(),
            ),
            dropped <==> old(self).spec_outbound().len() == old(self).spec_backlog_capacity(),
    {
        let mut dropped = false;
        if self.outbound.len() == self.backlog_capacity {
            self.outbound.remove(0);
            dropped = true;
        }
        self.outbound.push(frame);
        proof {
            if dropped {
                assert(final(self).spec_outbound() =~= old(self).spec_outbound().skip(1).push(
                    frame@,
                ));
            } else {
                assert(final(self).spec_outbound() =~= old(self).spec_outbound().push(frame@));
            }
            assert(self.subscriptions@ == old(self).subscriptions@);
            assert forall|p: int, q: int|
                #![trigger self.spec_subscriptions()[p], self.spec_subscriptions()[q]]
                0 <= p < q < self.spec_subscriptions().len() implies self.spec_subscriptions()[
                p
            ].0 != self.spec_subscriptions()[q].0 by {
                assert(old(self).spec_subscriptions()[p].0 != old(self).spec_subscriptions()[
                    q
                ].0);
            }
        }
        dropped
    }

    /// Drains the outbound queue: the queued frames in order, oldest first.
    pub fn take_outbound(&mut self) -> (r: Vec<Vec<u8>>)
        requires
            old(self).wf(),
        ensures
            final(self).wf(),
            final(self).spec_id() == old(self).spec_id(),
            final(self).spec_subscriptions() == old(self).spec_subscriptions(),
            final(self).spec_backlog_capacity() == old(self).spec_backlog_capacity(),
            final(self).spec_graph_subscribed() == old(self).spec_graph_subscribed(),
            final(self).spec_outbound().len() == 0,
            Seq::new(r@.len(), |i: int| r@[i]@) == old(self).spec_outbound(),
    {
        let mut drained: Vec<Vec<u8>> = Vec::new();
        std::mem::swap(&mut drained, &mut self.outbound);
        proof {
            assert(final(self).spec_outbound() =~= Seq::<Seq<u8>>::empty());
            assert(Seq::new(drained@.len(), |i: int| drained@[i]@) =~= old(self).spec_outbound());
            assert(self.subscriptions@ == old(self).subscriptions@);
            assert forall|p: int, q: int|
                #![trigger self.spec_subscriptions()[p], self.spec_subscriptions()[q]]
                0 <= p < q < self.spec_subscriptions().len() implies self.spec_subscriptions()[
                p
            ].0 != self.spec_subscriptions()[q].0 by {
                assert(old(self).spec_subscriptions()[p].0 != old(self).spec_subscriptions()[
                    q
                ].0);
            }
        }
        drained
    }
}

/// Backpressure does not block producers, and a slow client keeps the
/// newest frames: after any sequence of enqueues into an empty queue, the
/// queue holds exactly the last `capacity` frames (or all of them, if fewer
/// were published), in order.
pub proof fn lemma_enqueue_keeps_newest(frames: Seq<Seq<u8>>, cap: int)
    requires
        cap >= 1,
    ensures
        enqueue_all_spec(Seq::<Seq<u8>>::empty(), frames, cap) == if frames.len() <= cap {
            frames
        } else {
            frames.skip(frames.len() - cap)
        },
    decreases frames.len(),
{
    if frames.len() == 0 {
        assert(enqueue_all_spec(Seq::<Seq<u8>>::empty(), frames, cap) =~= frames);
    } else {
        let front = frames.drop_last();
        lemma_enqueue_keeps_newest(front, cap);
        let before = enqueue_all_spec(Seq::<Seq<u8>>::empty(), front, cap);
        if front.len() <= cap {
            assert(before == front);
            if front.len() < cap {
                assert(enqueue_spec(before, frames.last(), cap) =~= frames);
            } else {
                assert(enqueue_spec(before, frames.last(), cap) =~= frames.skip(
                    frames.len() - cap,
                ));
            }
        } else {
            assert(before == front.skip(front.len() - cap));
            assert(before.len() == cap);
            assert(enqueue_spec(before, frames.last(), cap) =~= frames.skip(frames.len() - cap));
        }
    }
}

} // verus!
