use vstd::prelude::*;

use crate::service::Schema;
use crate::FoxgloveError;

verus! {

/// Message metadata, as sinks receive it beside the payload.
#[derive(Clone, Copy, Debug, PartialEq, Eq, Structural)]
pub struct Metadata {
    /// Per-channel sequence number.
    pub sequence: u32,
    /// Time the message was logged, in nanoseconds since the epoch.
    pub log_time: u64,
    /// Time the message was published, in nanoseconds since the epoch.
    pub publish_time: u64,
}

/// Optional per-message metadata, as producers supply it.
#[derive(Clone, Copy, Debug, PartialEq, Eq, Structural)]
pub struct PartialMetadata {
    /// Per-channel sequence number, if the producer chose one.
    pub sequence: Option<u32>,
    /// Log time in nanoseconds since the epoch, if the producer chose one.
    pub log_time: Option<u64>,
    /// Publish time in nanoseconds since the epoch, if the producer chose
    /// one.
    pub publish_time: Option<u64>,
}

/// Resolves partial metadata: an absent log time is the wall-clock now, an
/// absent publish time equals the log time, and an absent sequence is the
/// channel's running counter.
pub fn resolve_metadata(partial: PartialMetadata, now: u64, next_sequence: u32) -> (m: Metadata)
    ensures
        m.log_time == (match partial.log_time {
            Some(t) => t,
            None => now,
        }),
        m.publish_time == (match partial.publish_time {
            Some(t) => t,
            None => m.log_time,
        }),
        m.sequence == (match partial.sequence {
            Some(q) => q,
            None => next_sequence,
        }),
{
    let log_time = match partial.log_time {
        Some(t) => t,
        None => now,
    };
    let publish_time = match partial.publish_time {
        Some(t) => t,
        None => log_time,
    };
    let sequence = match partial.sequence {
        Some(q) => q,
        None => next_sequence,
    };
    Metadata { sequence, log_time, publish_time }
}

/// A named, schematized stream of messages identified by a process-wide id.
#[derive(Debug)]
pub struct Channel {
    /// Process-wide channel id.
    pub id: u64,
    /// Topic name.
    pub topic: String,
    /// Message encoding.
    pub message_encoding: String,
    /// Message schema, if one was declared.
    pub schema: Option<Schema>,
}

/// Allocates process-wide channel identities, monotonically; an identity is
/// never reused.
#[derive(Debug)]
pub struct ChannelIdAllocator {
    next: u64,
}

impl ChannelIdAllocator {
    /// The next identity to hand out, for use in specifications.
    pub closed spec fn spec_next(&self) -> u64 {
        self.next
    }

    /// Creates an allocator. Identities start at one; zero is never issued.
    pub fn new() -> (r: Self)
        ensures
            r.spec_next() == 1,
    {
        ChannelIdAllocator { next: 1 }
    }

    /// Hands out the next identity. Every issued identity is smaller than
    /// every identity issued later, so identities are unique; fails only
    /// when they are exhausted.
    pub fn allocate(&mut self) -> (r: Option<u64>)
        ensures
            r is Some <==> old(self).spec_next() < u64::MAX,
            r matches Some(id) ==> id == old(self).spec_next() && final(self).spec_next() == old(
                self,
            ).spec_next() + 1,
            r is None ==> *final(self) == *old(self),
    {
        if self.next < u64::MAX {
            let id = self.next;
            self.next = self.next + 1;
            Some(id)
        } else {
            None
        }
    }
}

impl Channel {
    /// Creates a channel with a fresh identity. Fails only on identity
    /// exhaustion; the topic, being a string, is already valid UTF-8.
    pub fn new(
        allocator: &mut ChannelIdAllocator,
        topic: &str,
        message_encoding: &str,
        schema: Option<Schema>,
    ) -> (r: Result<Self, FoxgloveError>)
        ensures
            r is Ok <==> old(allocator).spec_next() < u64::MAX,
            r matches Ok(c) ==> {
                &&& c.id == old(allocator).spec_next()
                &&& c.topic@ == topic@
                &&& c.message_encoding@ == message_encoding@
                &&& c.schema == schema
                &&& final(allocator).spec_next() == old(allocator).spec_next() + 1
            },
            r is Err ==> r == Err::<Self, FoxgloveError>(FoxgloveError::ChannelsExhausted)
                && *final(allocator) == *old(allocator),
    {
        match allocator.allocate() {
            Some(id) => Ok(
                Channel {
                    id,
                    topic: topic.to_owned(),
                    message_encoding: message_encoding.to_owned(),
                    schema,
                },
            ),
            None => Err(FoxgloveError::ChannelsExhausted),
        }
    }
}

/// Message serialization, as typed channels delegate it: a byte buffer and
/// an optional schema. The core never inspects the bytes.
pub trait Encode {
    /// The schema advertised for this message type, if any.
    fn get_schema() -> Option<Schema>;

    /// The message encoding advertised for this message type.
    fn get_message_encoding() -> String;

    /// Serializes the message.
    fn encode(&self) -> Vec<u8>;
}

/// A consumer of log messages: an archive writer, a live server, or any
/// other sink the embedding code attaches.
pub trait LogSink: Send + Sync {
    /// Writes the message for the channel to the sink. The metadata may be
    /// used by some sink implementations.
    fn log(&self, channel: &Channel, msg: &[u8], metadata: &Metadata) -> Result<(), FoxgloveError>;

    /// Called when a new channel is associated with this sink.
    fn add_channel(&self, channel: &Channel) {
    }

    /// Called when a channel is unassociated from this sink.
    fn remove_channel(&self, channel: &Channel) {
    }

    /// Called to flush and close the sink and release any resources.
    fn close(&self) -> Result<(), FoxgloveError> {
        Ok(())
    }
}

/// The routing table between channels and sinks: which channels are live,
/// and which sinks are attached, each named by an id the embedding code
/// assigns. Dispatch decides which sinks receive a published message; the
/// embedding code makes the calls.
#[derive(Debug)]
pub struct LogContext {
    channels: Vec<u64>,
    sinks: Vec<u64>,
}

impl LogContext {
    /// The live channel ids, in registration order, for use in
    /// specifications.
    pub closed spec fn spec_channels(&self) -> Seq<u64> {
        self.channels@
    }

    /// The attached sink ids, in attachment order, for use in
    /// specifications.
    pub closed spec fn spec_sinks(&self) -> Seq<u64> {
        self.sinks@
    }

    /// Well-formedness: channel ids and sink ids are each distinct.
    pub open spec fn wf(&self) -> bool {
        self.spec_channels().no_duplicates() && self.spec_sinks().no_duplicates()
    }

    /// Creates an empty context.
    pub fn new() -> (r: Self)
        ensures
            r.spec_channels().len() == 0,
            r.spec_sinks().len() == 0,
            r.wf(),
    {
        LogContext { channels: Vec::new(), sinks: Vec::new() }
    }

    /// Attaches a sink. Returns the ids of the live channels, which the
    /// embedding code announces to the new sink; an already-attached sink is
    /// left alone and nothing is announced.
    pub fn add_sink(&mut self, sink_id: u64) -> (r: Option<Vec<u64>>)
        requires
            old(self).wf(),
        ensures
            final(self).wf(),
            final(self).spec_channels() == old(self).spec_channels(),
            r is Some <==> !old(self).spec_sinks().contains(sink_id),
            r is None ==> final(self).spec_sinks() == old(self).spec_sinks(),
            r matches Some(cs) ==> cs@ == old(self).spec_channels() && final(self).spec_sinks()
                == old(self).spec_sinks().push(sink_id),
    {
        if contains_id(&self.sinks, sink_id) {
            return None;
        }
        self.sinks.push(sink_id);
        proof {
            let pre = old(self).spec_sinks();
            assert(self.sinks@ == pre.push(sink_id));
            assert(forall|k: int| 0 <= k < pre.len() ==> pre[k] != sink_id);
            assert forall|p: int, q: int|
                0 <= p < q < self.sinks@.len() implies self.sinks@[p] != self.sinks@[q] by {
                if q == pre.len() {
                    assert(self.sinks@[p] == pre[p]);
                } else {
                    assert(self.sinks@[p] == pre[p] && self.sinks@[q] == pre[q]);
                }
            }
        }
        Some(copy_ids(&self.channels))
    }

    /// Detaches a sink. Returns the ids of the live channels, which the
    /// embedding code retracts from the sink; a sink that was not attached
    /// yields nothing.
    pub fn remove_sink(&mut self, sink_id: u64) -> (r: Option<Vec<u64>>)
        requires
            old(self).wf(),
        ensures
            final(self).wf(),
            final(self).spec_channels() == old(self).spec_channels(),
            r is Some <==> old(self).spec_sinks().contains(sink_id),
            r is None ==> final(self).spec_sinks() == old(self).spec_sinks(),
            r matches Some(cs) ==> cs@ == old(self).spec_channels()
                && !final(self).spec_sinks().contains(sink_id) && (exists|i: int|
                0 <= i < old(self).spec_sinks().len() && old(self).spec_sinks()[i] == sink_id
                    && final(self).spec_sinks() == old(self).spec_sinks().remove(i)),
    {
        let n = self.sinks.len();
        let mut i: usize = 0;
        while i < n
            invariant
                self == old(self),
                old(self).wf(),
                n == self.sinks@.len(),
                0 <= i <= n,
                forall|k: int| 0 <= k < i ==> self.sinks@[k] != sink_id,
            decreases n - i,
        {
            if self.sinks[i] == sink_id {
                let ghost pre = self.sinks@;
                self.sinks.remove(i);
                proof {
                    assert(pre[i as int] == sink_id);
                    assert forall|k: int|
                        0 <= k < self.sinks@.len() implies #[trigger] self.sinks@[k]
                        != sink_id by {
                        if k < i {
                            assert(self.sinks@[k] == pre[k]);
                        } else {
                            assert(self.sinks@[k] == pre[k + 1]);
                        }
                    }
                    assert forall|p: int, q: int|
                        0 <= p < q < self.sinks@.len() implies self.sinks@[p]
                        != self.sinks@[q] by {
                        let p0: int = if p < i {
                            p
                        } else {
                            p + 1
                        };
                        let q0: int = if q < i {
                            q
                        } else {
                            q + 1
                        };
                        assert(self.sinks@[p] == pre[p0] && self.sinks@[q] == pre[q0]);
                    }
                }
                return Some(copy_ids(&self.channels));
            }
            i = i + 1;
        }
        None
    }

    /// Registers a channel. Returns the ids of the attached sinks, which
    /// the embedding code announces the channel to; a channel id already
    /// registered is left alone and nothing is announced.
    pub fn register_channel(&mut self, channel_id: u64) -> (r: Option<Vec<u64>>)
        requires
            old(self).wf(),
        ensures
            final(self).wf(),
            final(self).spec_sinks() == old(self).spec_sinks(),
            r is Some <==> !old(self).spec_channels().contains(channel_id),
            r is None ==> final(self).spec_channels() == old(self).spec_channels(),
            r matches Some(ss) ==> ss@ == old(self).spec_sinks() && final(self).spec_channels()
                == old(self).spec_channels().push(channel_id),
    {
        if contains_id(&self.channels, channel_id) {
            return None;
        }
        self.channels.push(channel_id);
        proof {
            let pre = old(self).spec_channels();
            assert(self.channels@ == pre.push(channel_id));
            assert(forall|k: int| 0 <= k < pre.len() ==> pre[k] != channel_id);
            assert forall|p: int, q: int|
                0 <= p < q < self.channels@.len() implies self.channels@[p]
                != self.channels@[q] by {
                if q == pre.len() {
                    assert(self.channels@[p] == pre[p]);
                } else {
                    assert(self.channels@[p] == pre[p] && self.channels@[q] == pre[q]);
                }
            }
        }
        Some(copy_ids(&self.sinks))
    }

    /// Deregisters a channel. Returns the ids of the attached sinks, which
    /// the embedding code retracts the channel from; an unknown channel id
    /// yields nothing.
    pub fn deregister_channel(&mut self, channel_id: u64) -> (r: Option<Vec<u64>>)
        requires
            old(self).wf(),
        ensures
            final(self).wf(),
            final(self).spec_sinks() == old(self).spec_sinks(),
            r is Some <==> old(self).spec_channels().contains(channel_id),
            r is None ==> final(self).spec_channels() == old(self).spec_channels(),
            r matches Some(ss) ==> ss@ == old(self).spec_sinks()
                && !final(self).spec_channels().contains(channel_id),
    {
        let n = self.channels.len();
        let mut i: usize = 0;
        while i < n
            invariant
                self == old(self),
                old(self).wf(),
                n == self.channels@.len(),
                0 <= i <= n,
                forall|k: int| 0 <= k < i ==> self.channels@[k] != channel_id,
            decreases n - i,
        {
            if self.channels[i] == channel_id {
                let ghost pre = self.channels@;
                self.channels.remove(i);
                proof {
                    assert(pre[i as int] == channel_id);
                    assert forall|k: int|
                        0 <= k < self.channels@.len() implies #[trigger] self.channels@[k]
                        != channel_id by {
                        if k < i {
                            assert(self.channels@[k] == pre[k]);
                        } else {
                            assert(self.channels@[k] == pre[k + 1]);
                        }
                    }
                    assert forall|p: int, q: int|
                        0 <= p < q < self.channels@.len() implies self.channels@[p]
                        != self.channels@[q] by {
                        let p0: int = if p < i {
                            p
                        } else {
                            p + 1
                        };
                        let q0: int = if q < i {
                            q
                        } else {
                            q + 1
                        };
                        assert(self.channels@[p] == pre[p0] && self.channels@[q] == pre[q0]);
                    }
                }
                return Some(copy_ids(&self.sinks));
            }
            i = i + 1;
        }
        None
    }

    /// Decides the fan-out for one published message: the sinks that
    /// receive it, each exactly once, in attachment order. A message on an
    /// unregistered channel reaches no sink.
    pub fn dispatch(&self, channel_id: u64) -> (r: Vec<u64>)
        requires
            self.wf(),
        ensures
            self.spec_channels().contains(channel_id) ==> r@ == self.spec_sinks(),
            !self.spec_channels().contains(channel_id) ==> r@.len() == 0,
            r@.no_duplicates(),
    {
        if contains_id(&self.channels, channel_id) {
            copy_ids(&self.sinks)
        } else {
            Vec::new()
        }
    }
}

impl Default for LogContext {
    /// An empty context.
    fn default() -> (r: Self)
        ensures
            r.spec_channels().len() == 0,
            r.spec_sinks().len() == 0,
            r.wf(),
    {
        LogContext::new()
    }
}

/// True if the id list holds `id`.
fn contains_id(v: &Vec<u64>, id: u64) -> (r: bool)
    ensures
        r == v@.contains(id),
{
    let n = v.len();
    let mut i: usize = 0;
    while i < n
        invariant
            n == v@.len(),
            0 <= i <= n,
            forall|k: int| 0 <= k < i ==> v@[k] != id,
        decreases n - i,
    {
        if v[i] == id {
            return true;
        }
        i = i + 1;
    }
    false
}

/// Copies an id list.
fn copy_ids(v: &Vec<u64>) -> (r: Vec<u64>)
    ensures
        r@ == v@,
{
    let n = v.len();
    let mut r: Vec<u64> = Vec::new();
    let mut i: usize = 0;
    while i < n
        invariant
            n == v@.len(),
            0 <= i <= n,
            r@ == v@.take(i as int),
        decreases n - i,
    {
        r.push(v[i]);
        proof {
            assert(r@ =~= v@.take(i + 1));
        }
        i = i + 1;
    }
    proof {
        assert(v@.take(n as int) =~= v@);
    }
    r
}

} // verus!
