use vstd::prelude::*;
use vstd::string::*;

use crate::buffer::{bytes_data, bytes_to_vec};
use crate::framing::{encode_service_response, service_response_frame};
use crate::json::{append_json_escaped, json_escape};
use crate::semaphore::SemaphoreGuard;
use crate::text::{dec_digits, str_eq, u64_to_decimal};

verus! {

/// A service ID, which uniquely identifies a service hosted by the server.
#[derive(Clone, Copy, Debug, PartialEq, Eq, Hash, Structural)]
pub struct ServiceId(pub u32);

impl ServiceId {
    /// Creates a new service ID.
    pub fn new(id: u32) -> (r: Self)
        ensures
            r.0 == id,
    {
        ServiceId(id)
    }

    /// The numeric value of the ID.
    pub fn value(self) -> (r: u32)
        ensures
            r == self.0,
    {
        self.0
    }
}

/// A service call ID, which uniquely identifies an outstanding call for a
/// particular client.
#[derive(Clone, Copy, Debug, PartialEq, Eq, Hash, Structural)]
pub struct CallId(pub u32);

impl CallId {
    /// Creates a new call ID.
    pub fn new(id: u32) -> (r: Self)
        ensures
            r.0 == id,
    {
        CallId(id)
    }

    /// The numeric value of the ID.
    pub fn value(self) -> (r: u32)
        ensures
            r == self.0,
    {
        self.0
    }
}

/// A payload schema: a name, a schema encoding, and the schema data itself,
/// which the core never inspects.
#[derive(Clone, Debug)]
pub struct Schema {
    /// Schema name.
    pub name: String,
    /// Schema encoding, e.g. "protobuf" or "jsonschema".
    pub encoding: String,
    /// Opaque schema data.
    pub data: Vec<u8>,
}

impl Schema {
    /// Creates a new schema.
    pub fn new(name: &str, encoding: &str, data: Vec<u8>) -> (r: Self)
        ensures
            r.name@ == name@,
            r.encoding@ == encoding@,
            r.data@ == data@,
    {
        Schema { name: name.to_owned(), encoding: encoding.to_owned(), data }
    }
}

/// One direction of a service exchange: a message encoding together with its
/// schema.
#[derive(Clone, Debug)]
pub struct MessageSchema {
    /// Message encoding for this direction.
    pub encoding: String,
    /// Schema for this direction.
    pub schema: Schema,
}

/// A service schema, with optional request and response sub-schemas.
#[derive(Clone, Debug)]
pub struct ServiceSchema {
    /// Service schema name.
    pub name: String,
    /// Request encoding and schema, if declared.
    pub request: Option<MessageSchema>,
    /// Response encoding and schema, if declared.
    pub response: Option<MessageSchema>,
}

impl ServiceSchema {
    /// Creates a new schema with no request or response sub-schema.
    pub fn new(name: &str) -> (r: Self)
        ensures
            r.name@ == name@,
            r.request is None,
            r.response is None,
    {
        ServiceSchema { name: name.to_owned(), request: None, response: None }
    }

    /// Declares the request encoding and schema.
    pub fn with_request(self, encoding: &str, schema: Schema) -> (r: Self)
        ensures
            r.name == self.name,
            r.response == self.response,
            r.request matches Some(ms) && ms.encoding@ == encoding@ && ms.schema == schema,
    {
        ServiceSchema {
            request: Some(MessageSchema { encoding: encoding.to_owned(), schema }),
            ..self
        }
    }

    /// Declares the response encoding and schema.
    pub fn with_response(self, encoding: &str, schema: Schema) -> (r: Self)
        ensures
            r.name == self.name,
            r.request == self.request,
            r.response matches Some(ms) && ms.encoding@ == encoding@ && ms.schema == schema,
    {
        ServiceSchema {
            response: Some(MessageSchema { encoding: encoding.to_owned(), schema }),
            ..self
        }
    }
}

/// A websocket service: a name, a process-unique ID, and a schema. Handler
/// dispatch is the embedder's business; the registry tracks identity.
#[derive(Clone, Debug)]
pub struct Service {
    id: ServiceId,
    name: String,
    schema: ServiceSchema,
}

/// Allocates service identities, monotonically; every issued identity is
/// nonzero, and smaller than every identity issued later, so identities are
/// unique across the allocator's life.
#[derive(Debug)]
pub struct ServiceIdAllocator {
    next: u32,
}

impl ServiceIdAllocator {
    /// The next identity to hand out, for use in specifications.
    pub closed spec fn spec_next(&self) -> u32 {
        self.next
    }

    /// Well-formedness: zero is never issued.
    pub open spec fn wf(&self) -> bool {
        self.spec_next() >= 1
    }

    /// Creates an allocator. Identities start at one.
    pub fn new() -> (r: Self)
        ensures
            r.spec_next() == 1,
            r.wf(),
    {
        ServiceIdAllocator { next: 1 }
    }

    /// True if another identity can be issued.
    pub fn can_allocate(&self) -> (r: bool)
        ensures
            r == (self.spec_next() < u32::MAX),
    {
        self.next < u32::MAX
    }

    /// Hands out the next identity: nonzero, and larger than every earlier
    /// one. Identities must not be exhausted.
    pub fn allocate(&mut self) -> (r: ServiceId)
        requires
            old(self).wf(),
            old(self).spec_next() < u32::MAX,
        ensures
            final(self).wf(),
            r.0 == old(self).spec_next(),
            r.0 >= 1,
            final(self).spec_next() == old(self).spec_next() + 1,
    {
        let id = self.next;
        self.next = self.next + 1;
        ServiceId(id)
    }
}

/// A builder for a websocket service.
#[derive(Debug)]
pub struct ServiceBuilder {
    id: ServiceId,
    name: String,
    schema: ServiceSchema,
}

impl ServiceBuilder {
    /// The chosen service ID, for use in specifications.
    pub closed spec fn spec_id(&self) -> ServiceId {
        self.id
    }

    /// The service name, for use in specifications.
    pub closed spec fn spec_name(&self) -> Seq<char> {
        self.name@
    }

    /// The service schema, for use in specifications.
    pub closed spec fn spec_schema(&self) -> ServiceSchema {
        self.schema
    }

    /// Creates a new builder for a websocket service, with a freshly
    /// allocated ID: nonzero, and distinct from the ID of every builder the
    /// allocator served earlier. Identities must not be exhausted, which
    /// [`ServiceIdAllocator::can_allocate`] decides.
    pub fn new(allocator: &mut ServiceIdAllocator, name: &str, schema: ServiceSchema) -> (r: Self)
        requires
            old(allocator).wf(),
            old(allocator).spec_next() < u32::MAX,
        ensures
            final(allocator).wf(),
            r.spec_id().0 == old(allocator).spec_next(),
            r.spec_id().0 >= 1,
            final(allocator).spec_next() == old(allocator).spec_next() + 1,
            r.spec_name() == name@,
            r.spec_schema() == schema,
    {
        ServiceBuilder { id: allocator.allocate(), name: name.to_owned(), schema }
    }

    /// Overrides the service ID, for deterministic tests and embeddings
    /// that manage identities themselves.
    pub fn with_id(self, id: ServiceId) -> (r: Self)
        ensures
            r.spec_id() == id,
            r.spec_name() == self.spec_name(),
            r.spec_schema() == self.spec_schema(),
    {
        ServiceBuilder { id, ..self }
    }

    /// Returns the constructed [`Service`].
    pub fn build(self) -> (r: Service)
        ensures
            r.spec_id() == self.spec_id(),
            r.spec_name() == self.spec_name(),
            r.spec_schema() == self.spec_schema(),
    {
        Service { id: self.id, name: self.name, schema: self.schema }
    }
}

impl Service {
    /// Creates a new builder for a websocket service, with a freshly
    /// allocated ID.
    pub fn builder(
        allocator: &mut ServiceIdAllocator,
        name: &str,
        schema: ServiceSchema,
    ) -> (r: ServiceBuilder)
        requires
            old(allocator).wf(),
            old(allocator).spec_next() < u32::MAX,
        ensures
            final(allocator).wf(),
            r.spec_id().0 == old(allocator).spec_next(),
            r.spec_id().0 >= 1,
            final(allocator).spec_next() == old(allocator).spec_next() + 1,
            r.spec_name() == name@,
            r.spec_schema() == schema,
    {
        ServiceBuilder::new(allocator, name, schema)
    }

    /// Returns the service's ID.
    pub fn id(&self) -> (r: ServiceId)
        ensures
            r == self.spec_id(),
    {
        self.id
    }

    /// The service's ID, for use in specifications.
    pub closed spec fn spec_id(&self) -> ServiceId {
        self.id
    }

    /// The service's schema, for use in specifications.
    pub closed spec fn spec_schema(&self) -> ServiceSchema {
        self.schema
    }

    /// The service's name, for use in specifications.
    pub closed spec fn spec_name(&self) -> Seq<char> {
        self.name@
    }

    /// Returns the service's name.
    pub fn name(&self) -> (r: &str)
        ensures
            r@ == self.spec_name(),
    {
        self.name.as_str()
    }

    /// Returns the service schema.
    pub fn schema(&self) -> (r: &ServiceSchema)
        ensures
            *r == self.spec_schema(),
    {
        &self.schema
    }

    /// The declared request encoding, for use in specifications.
    pub closed spec fn spec_request_encoding(&self) -> Option<Seq<char>> {
        match self.schema.request {
            Some(ms) => Some(ms.encoding@),
            None => None,
        }
    }

    /// The declared response encoding, for use in specifications.
    pub closed spec fn spec_response_encoding(&self) -> Option<Seq<char>> {
        match self.schema.response {
            Some(ms) => Some(ms.encoding@),
            None => None,
        }
    }

    /// The declared request encoding.
    pub fn request_encoding(&self) -> (r: Option<&str>)
        ensures
            r matches Some(e) ==> self.spec_request_encoding() == Some(e@),
            r is None <==> self.spec_request_encoding() is None,
    {
        match &self.schema.request {
            Some(ms) => Some(ms.encoding.as_str()),
            None => None,
        }
    }

    /// The declared response encoding.
    pub fn response_encoding(&self) -> (r: Option<&str>)
        ensures
            r matches Some(e) ==> self.spec_response_encoding() == Some(e@),
            r is None <==> self.spec_response_encoding() is None,
    {
        match &self.schema.response {
            Some(ms) => Some(ms.encoding.as_str()),
            None => None,
        }
    }
}

/// True if some service in the list has this ID.
pub open spec fn seq_has_id(s: Seq<Service>, id: u32) -> bool {
    exists|i: int| 0 <= i < s.len() && s[i].spec_id().0 == id
}

/// True if some service in the list has this name.
pub open spec fn seq_has_name(s: Seq<Service>, name: Seq<char>) -> bool {
    exists|i: int| 0 <= i < s.len() && s[i].spec_name() == name
}

/// The services whose IDs are not listed in `ids`, in order.
pub open spec fn without_ids(view: Seq<Service>, ids: Seq<ServiceId>) -> Seq<Service> {
    view.filter(|s: Service| !ids.contains(s.spec_id()))
}

/// The IDs of the services that are listed in `ids`, in registry order.
pub open spec fn removed_ids(view: Seq<Service>, ids: Seq<ServiceId>) -> Seq<u32> {
    view.filter(|s: Service| ids.contains(s.spec_id())).map_values(|s: Service| s.spec_id().0)
}

/// One unfolding step of `removed_ids` along a prefix of `view`.
proof fn lemma_removed_ids_take_step(view: Seq<Service>, ids: Seq<ServiceId>, i: int)
    requires
        0 <= i < view.len(),
    ensures
        removed_ids(view.take(i + 1), ids) == if ids.contains(view[i].spec_id()) {
            removed_ids(view.take(i), ids).push(view[i].spec_id().0)
        } else {
            removed_ids(view.take(i), ids)
        },
{
    reveal(Seq::filter);
    assert(view.take(i + 1).drop_last() =~= view.take(i));
    assert(view.take(i + 1).last() == view[i]);
    let pred = |s: Service| ids.contains(s.spec_id());
    let f = |s: Service| s.spec_id().0;
    if pred(view[i]) {
        assert(view.take(i + 1).filter(pred).map_values(f) =~= view.take(i).filter(
            pred,
        ).map_values(f).push(view[i].spec_id().0));
    }
}

/// One unfolding step of `without_ids` along a prefix of `view`.
proof fn lemma_without_ids_take_step(view: Seq<Service>, ids: Seq<ServiceId>, i: int)
    requires
        0 <= i < view.len(),
    ensures
        without_ids(view.take(i + 1), ids) == if !ids.contains(view[i].spec_id()) {
            without_ids(view.take(i), ids).push(view[i])
        } else {
            without_ids(view.take(i), ids)
        },
{
    reveal(Seq::filter);
    assert(view.take(i + 1).drop_last() =~= view.take(i));
    assert(view.take(i + 1).last() == view[i]);
}

/// Every retained service is one of the original services.
proof fn lemma_without_ids_membership(view: Seq<Service>, ids: Seq<ServiceId>)
    ensures
        forall|k: int|
            0 <= k < without_ids(view, ids).len() ==> exists|j: int|
                0 <= j < view.len() && #[trigger] without_ids(view, ids)[k] == view[j],
    decreases view.len(),
{
    reveal(Seq::filter);
    if view.len() > 0 {
        let front = view.drop_last();
        lemma_without_ids_membership(front, ids);
        let f = without_ids(view, ids);
        let ff = without_ids(front, ids);
        assert forall|k: int| 0 <= k < f.len() implies exists|j: int|
            0 <= j < view.len() && #[trigger] f[k] == view[j] by {
            if k < ff.len() {
                let j2 = choose|j: int| 0 <= j < front.len() && ff[k] == front[j];
                assert(front[j2] == view[j2]);
                assert(f[k] == ff[k]);
            } else {
                assert(f[k] == view[view.len() - 1]);
            }
        }
    }
}

/// Removing listed services keeps the remaining ids and names distinct.
proof fn lemma_without_ids_distinct(view: Seq<Service>, ids: Seq<ServiceId>)
    requires
        forall|i: int, j: int|
            0 <= i < j < view.len() ==> view[i].spec_id().0 != view[j].spec_id().0
                && view[i].spec_name() != view[j].spec_name(),
    ensures
        forall|p: int, q: int|
            #![trigger without_ids(view, ids)[p], without_ids(view, ids)[q]]
            0 <= p < q < without_ids(view, ids).len() ==> without_ids(view, ids)[p].spec_id().0
                != without_ids(view, ids)[q].spec_id().0 && without_ids(view, ids)[p].spec_name()
                != without_ids(view, ids)[q].spec_name(),
    decreases view.len(),
{
    reveal(Seq::filter);
    if view.len() > 0 {
        let front = view.drop_last();
        let last = view.last();
        assert forall|i: int, j: int| 0 <= i < j < front.len() implies front[i].spec_id().0
            != front[j].spec_id().0 && front[i].spec_name() != front[j].spec_name() by {
            assert(view[i].spec_id().0 != view[j].spec_id().0 && view[i].spec_name()
                != view[j].spec_name());
        }
        lemma_without_ids_distinct(front, ids);
        lemma_without_ids_membership(front, ids);
        let f = without_ids(view, ids);
        let ff = without_ids(front, ids);
        assert forall|p: int, q: int|
            #![trigger f[p], f[q]]
            0 <= p < q < f.len() implies f[p].spec_id().0 != f[q].spec_id().0 && f[p].spec_name()
            != f[q].spec_name() by {
            if q < ff.len() {
                assert(ff[p].spec_id().0 != ff[q].spec_id().0 && ff[p].spec_name()
                    != ff[q].spec_name());
            } else {
                assert(f[q] == last);
                assert(f[p] == ff[p]);
                let j = choose|j: int| 0 <= j < front.len() && ff[p] == front[j];
                assert(view[j].spec_id().0 != view[view.len() - 1].spec_id().0 && view[
                    j
                ].spec_name() != view[view.len() - 1].spec_name());
            }
        }
    }
}

/// True if the list of IDs holds this ID.
fn ids_contain(ids: &Vec<ServiceId>, id: ServiceId) -> (r: bool)
    ensures
        r == ids@.contains(id),
{
    let n = ids.len();
    let mut i: usize = 0;
    while i < n
        invariant
            n == ids@.len(),
            0 <= i <= n,
            forall|k: int| 0 <= k < i ==> ids@[k] != id,
        decreases n - i,
    {
        if ids[i] == id {
            return true;
        }
        i = i + 1;
    }
    false
}

/// A registry of services, keyed by both service ID and service name.
#[derive(Debug)]
pub struct ServiceMap {
    services: Vec<Service>,
}

impl ServiceMap {
    /// The registered services, in insertion order, for use in specifications.
    pub closed spec fn view_seq(&self) -> Seq<Service> {
        self.services@
    }

    /// True if some registered service has this ID.
    pub open spec fn has_id(&self, id: u32) -> bool {
        seq_has_id(self.view_seq(), id)
    }

    /// True if some registered service has this name.
    pub open spec fn has_name(&self, name: Seq<char>) -> bool {
        seq_has_name(self.view_seq(), name)
    }

    /// Well-formedness: the map from names to IDs and the map from IDs to
    /// services both remain injective.
    pub open spec fn wf(&self) -> bool {
        forall|i: int, j: int|
            #![trigger self.view_seq()[i], self.view_seq()[j]]
            0 <= i < j < self.view_seq().len() ==> self.view_seq()[i].spec_id().0
                != self.view_seq()[j].spec_id().0 && self.view_seq()[i].spec_name()
                != self.view_seq()[j].spec_name()
    }

    /// Creates an empty registry.
    pub fn new() -> (r: Self)
        ensures
            r.view_seq().len() == 0,
            r.wf(),
    {
        ServiceMap { services: Vec::new() }
    }

    /// Constructs a service map from a list of services, in order.
    ///
    /// Service IDs and names must be unique.
    pub fn from_iter(services: Vec<Service>) -> (r: Self)
        requires
            forall|i: int, j: int|
                0 <= i < j < services@.len() ==> services@[i].spec_id().0
                    != services@[j].spec_id().0 && services@[i].spec_name()
                    != services@[j].spec_name(),
        ensures
            r.view_seq() == services@,
            r.wf(),
    {
        ServiceMap { services }
    }

    /// Inserts a service into the map.
    ///
    /// The service's ID and name must not collide with a registered service.
    pub fn insert(&mut self, service: Service)
        requires
            old(self).wf(),
            !old(self).has_id(service.spec_id().0),
            !old(self).has_name(service.spec_name()),
        ensures
            final(self).view_seq() == old(self).view_seq().push(service),
            final(self).wf(),
    {
        self.services.push(service);
        proof {
            let pre = old(self).view_seq();
            let post = self.services@;
            assert forall|i: int, j: int| 0 <= i < j < post.len() implies post[i].spec_id().0
                != post[j].spec_id().0 && post[i].spec_name() != post[j].spec_name() by {
                if j == pre.len() {
                    if post[i].spec_id().0 == service.spec_id().0 {
                        assert(0 <= i < pre.len() && pre[i].spec_id().0 == service.spec_id().0);
                    }
                    if post[i].spec_name() == service.spec_name() {
                        assert(0 <= i < pre.len() && pre[i].spec_name() == service.spec_name());
                    }
                }
            }
        }
    }

    /// Returns true if the map contains a service with the provided name.
    pub fn contains_name(&self, name: &str) -> (r: bool)
        ensures
            r == self.has_name(name@),
    {
        let n = self.services.len();
        let mut i: usize = 0;
        while i < n
            invariant
                n == self.services@.len(),
                0 <= i <= n,
                forall|k: int| 0 <= k < i ==> self.services@[k].spec_name() != name@,
            decreases n - i,
        {
            if str_eq(self.services[i].name(), name) {
                proof {
                    assert(0 <= i < self.view_seq().len() && self.view_seq()[
                        i as int
                    ].spec_name() == name@);
                }
                return true;
            }
            i = i + 1;
        }
        false
    }

    /// Returns true if the map contains a service with the provided ID.
    pub fn contains_id(&self, id: ServiceId) -> (r: bool)
        ensures
            r == self.has_id(id.0),
    {
        let n = self.services.len();
        let mut i: usize = 0;
        while i < n
            invariant
                n == self.services@.len(),
                0 <= i <= n,
                forall|k: int| 0 <= k < i ==> self.services@[k].spec_id().0 != id.0,
            decreases n - i,
        {
            if self.services[i].id().value() == id.0 {
                proof {
                    assert(0 <= i < self.view_seq().len() && self.view_seq()[i as int].spec_id().0
                        == id.0);
                }
                return true;
            }
            i = i + 1;
        }
        false
    }

    /// Removes a service by name. Returns the removed service, and leaves the
    /// rest of the registry in order.
    pub fn remove_by_name(&mut self, name: &str) -> (r: Option<Service>)
        requires
            old(self).wf(),
        ensures
            final(self).wf(),
            !final(self).has_name(name@),
            r is None ==> !old(self).has_name(name@)
                && final(self).view_seq() == old(self).view_seq(),
            r matches Some(s) ==> s.spec_name() == name@ && (exists|i: int|
                0 <= i < old(self).view_seq().len() && old(self).view_seq()[i] == s
                    && final(self).view_seq() == old(self).view_seq().remove(i)),
    {
        let ghost pre = old(self).view_seq();
        let n = self.services.len();
        let mut i: usize = 0;
        while i < n
            invariant
                pre == old(self).view_seq(),
                self.services@ == pre,
                old(self).wf(),
                n == pre.len(),
                0 <= i <= n,
                forall|k: int| 0 <= k < i ==> pre[k].spec_name() != name@,
            decreases n - i,
        {
            if str_eq(self.services[i].name(), name) {
                let s = self.services.remove(i);
                proof {
                    let post = self.services@;
                    assert(post == pre.remove(i as int));
                    assert forall|k: int| 0 <= k < post.len() implies post[k].spec_name()
                        != name@ by {
                        if k < i {
                            assert(post[k] == pre[k]);
                        } else {
                            assert(post[k] == pre[k + 1]);
                            assert(old(self).view_seq()[i as int].spec_id().0 != old(
                                self,
                            ).view_seq()[k + 1].spec_id().0 && old(self).view_seq()[
                                i as int
                            ].spec_name() != old(self).view_seq()[k + 1].spec_name());
                        }
                    }
                    assert forall|p: int, q: int| 0 <= p < q < post.len() implies post[
                        p
                    ].spec_id().0 != post[q].spec_id().0 && post[p].spec_name() != post[
                        q
                    ].spec_name() by {
                        let p0: int = if p < i { p } else { p + 1 };
                        let q0: int = if q < i { q } else { q + 1 };
                        assert(post[p] == pre[p0]);
                        assert(post[q] == pre[q0]);
                        assert(old(self).view_seq()[p0].spec_id().0 != old(self).view_seq()[
                            q0
                        ].spec_id().0 && old(self).view_seq()[p0].spec_name() != old(
                            self,
                        ).view_seq()[q0].spec_name());
                    }
                    assert(0 <= i < pre.len() && pre[i as int] == s && post == pre.remove(
                        i as int,
                    ));
                }
                return Some(s);
            }
            i = i + 1;
        }
        None
    }

    /// Removes every service whose ID is listed in `ids`, keeping the rest
    /// in order. Returns the IDs actually removed, in registry order.
    pub fn retain_without_ids(&mut self, ids: &Vec<ServiceId>) -> (removed: Vec<u32>)
        requires
            old(self).wf(),
        ensures
            final(self).wf(),
            final(self).view_seq() == without_ids(old(self).view_seq(), ids@),
            removed@ == removed_ids(old(self).view_seq(), ids@),
    {
        let ghost pre = old(self).view_seq();
        let mut removed: Vec<u32> = Vec::new();
        let mut i: usize = 0;
        let ghost mut j: int = 0;
        while i < self.services.len()
            invariant
                pre == old(self).view_seq(),
                old(self).wf(),
                0 <= j <= pre.len(),
                self.services@ == without_ids(pre.take(j), ids@) + pre.skip(j),
                i == without_ids(pre.take(j), ids@).len(),
                removed@ == removed_ids(pre.take(j), ids@),
            decreases pre.len() - j,
        {
            proof {
                lemma_without_ids_take_step(pre, ids@, j);
                lemma_removed_ids_take_step(pre, ids@, j);
            }
            let ghost mid = without_ids(pre.take(j), ids@);
            proof {
                assert(self.services@[i as int] == pre[j]);
            }
            if ids_contain(ids, self.services[i].id()) {
                removed.push(self.services[i].id().value());
                self.services.remove(i);
                proof {
                    assert(self.services@ =~= without_ids(pre.take(j + 1), ids@) + pre.skip(
                        j + 1,
                    ));
                }
            } else {
                i = i + 1;
                proof {
                    assert(self.services@ =~= without_ids(pre.take(j + 1), ids@) + pre.skip(
                        j + 1,
                    ));
                }
            }
            proof {
                j = j + 1;
            }
        }
        proof {
            assert(pre.take(j) =~= pre);
            assert(pre.skip(j) =~= Seq::<Service>::empty());
            assert(self.services@ =~= without_ids(pre, ids@));
            lemma_without_ids_distinct(pre, ids@);
        }
        removed
    }

    /// The registered services, in insertion order.
    pub fn values(&self) -> (r: &Vec<Service>)
        ensures
            r@ == self.view_seq(),
    {
        &self.services
    }

    /// Looks up a service by ID.
    pub fn get_by_id(&self, id: ServiceId) -> (r: Option<&Service>)
        ensures
            r is Some <==> self.has_id(id.0),
            r matches Some(s) ==> s.spec_id() == id && (exists|i: int|
                0 <= i < self.view_seq().len() && self.view_seq()[i] == *s),
    {
        let n = self.services.len();
        let mut i: usize = 0;
        while i < n
            invariant
                n == self.services@.len(),
                0 <= i <= n,
                forall|k: int| 0 <= k < i ==> self.services@[k].spec_id().0 != id.0,
            decreases n - i,
        {
            if self.services[i].id().value() == id.0 {
                proof {
                    assert(0 <= i < self.view_seq().len() && self.view_seq()[i as int].spec_id().0
                        == id.0);
                    assert(self.view_seq()[i as int] == self.services@[i as int]);
                }
                return Some(&self.services[i]);
            }
            i = i + 1;
        }
        None
    }
}

impl Default for ServiceMap {
    /// An empty registry.
    fn default() -> (r: Self)
        ensures
            r.view_seq().len() == 0,
            r.wf(),
    {
        ServiceMap { services: Vec::new() }
    }
}

/// Why the server refuses a client's service request.
#[derive(Clone, Copy, Debug, PartialEq, Eq, Structural)]
pub enum ServiceCallRejection {
    /// The service id is not registered.
    UnknownService,
    /// The client already has an outstanding call with this call id.
    CallIdReused,
    /// The declared encoding does not match the service's declared request
    /// encoding.
    EncodingMismatch,
    /// No call permit is available.
    Overloaded,
}

/// True if the declared encoding is acceptable for every registered service
/// with this id: the service's declared request encoding where it has one,
/// and any of the fallback encodings — the server's configured supported
/// encodings — where it does not.
pub open spec fn call_encoding_ok(
    services: &ServiceMap,
    id: u32,
    encoding: Seq<char>,
    fallback: Seq<Seq<char>>,
) -> bool {
    forall|i: int|
        0 <= i < services.view_seq().len() && (#[trigger] services.view_seq()[i]).spec_id().0 == id
            ==> (match services.view_seq()[i].spec_request_encoding() {
            Some(e) => e == encoding,
            None => fallback.contains(encoding),
        })
}

/// Decides whether a client's service request is accepted: the service must
/// be registered, the call id fresh for this client, the encoding
/// compatible — against the fallback encodings where the service declares
/// none — and a permit available; checked in that order, and the request is
/// accepted if and only if all four hold.
pub fn accept_call(
    services: &ServiceMap,
    used_call_ids: &Vec<u32>,
    service_id: ServiceId,
    call_id: CallId,
    encoding: &str,
    fallback_encodings: &Vec<String>,
    permit_available: bool,
) -> (r: Result<(), ServiceCallRejection>)
    requires
        services.wf(),
    ensures
        r == Ok::<(), ServiceCallRejection>(()) <==> services.has_id(service_id.0)
            && !used_call_ids@.contains(call_id.0) && call_encoding_ok(
            services,
            service_id.0,
            encoding@,
            crate::json::id_views(fallback_encodings@),
        ) && permit_available,
        !services.has_id(service_id.0) ==> r == Err::<(), ServiceCallRejection>(
            ServiceCallRejection::UnknownService,
        ),
        services.has_id(service_id.0) && used_call_ids@.contains(call_id.0) ==> r == Err::<
            (),
            ServiceCallRejection,
        >(ServiceCallRejection::CallIdReused),
        services.has_id(service_id.0) && !used_call_ids@.contains(call_id.0)
            && !call_encoding_ok(
            services,
            service_id.0,
            encoding@,
            crate::json::id_views(fallback_encodings@),
        ) ==> r == Err::<(), ServiceCallRejection>(ServiceCallRejection::EncodingMismatch),
        services.has_id(service_id.0) && !used_call_ids@.contains(call_id.0) && call_encoding_ok(
            services,
            service_id.0,
            encoding@,
            crate::json::id_views(fallback_encodings@),
        ) && !permit_available ==> r == Err::<(), ServiceCallRejection>(
            ServiceCallRejection::Overloaded,
        ),
{
    let service = match services.get_by_id(service_id) {
        Some(s) => s,
        None => {
            return Err(ServiceCallRejection::UnknownService);
        },
    };
    let mut k: usize = 0;
    let n = used_call_ids.len();
    while k < n
        invariant
            n == used_call_ids@.len(),
            0 <= k <= n,
            services.wf(),
            services.has_id(service_id.0),
            forall|t: int| 0 <= t < k ==> used_call_ids@[t] != call_id.0,
        decreases n - k,
    {
        if used_call_ids[k] == call_id.0 {
            return Err(ServiceCallRejection::CallIdReused);
        }
        k = k + 1;
    }
    let encoding_matches = match service.request_encoding() {
        Some(e) => crate::text::str_eq(e, encoding),
        None => crate::text::vec_contains_str(fallback_encodings, encoding),
    };
    proof {
        let ghost fb = crate::json::id_views(fallback_encodings@);
        assert(fb.contains(encoding@) == (exists|j: int|
            0 <= j < fallback_encodings@.len() && fallback_encodings@[j]@ == encoding@)) by {
            if fb.contains(encoding@) {
                let j = choose|j: int| 0 <= j < fb.len() && fb[j] == encoding@;
                assert(fallback_encodings@[j]@ == encoding@);
            }
            if exists|j: int|
                0 <= j < fallback_encodings@.len() && fallback_encodings@[j]@ == encoding@ {
                let j = choose|j: int|
                    0 <= j < fallback_encodings@.len() && fallback_encodings@[j]@ == encoding@;
                assert(fb[j] == encoding@);
            }
        }
        let ghost sv = choose|i: int|
            0 <= i < services.view_seq().len() && services.view_seq()[i] == *service;
        assert forall|i: int|
            0 <= i < services.view_seq().len() && (#[trigger] services.view_seq()[i]).spec_id().0
                == service_id.0 implies (match services.view_seq()[i].spec_request_encoding() {
            Some(e) => e == encoding@,
            None => fb.contains(encoding@),
        }) == encoding_matches by {
            if i != sv {
                assert(services.view_seq()[i].spec_id().0 != services.view_seq()[sv].spec_id().0);
            }
        }
        if !encoding_matches {
            assert(services.view_seq()[sv].spec_id().0 == service_id.0);
            assert(!call_encoding_ok(services, service_id.0, encoding@, fb));
        }
    }
    if !encoding_matches {
        return Err(ServiceCallRejection::EncodingMismatch);
    }
    if !permit_available {
        return Err(ServiceCallRejection::Overloaded);
    }
    Ok(())
}

/// A service request, as handlers receive it.
pub struct Request {
    /// The name of the called service.
    pub service_name: String,
    /// The id of the called service.
    pub service_id: ServiceId,
    /// The id of the calling client.
    pub client_id: u32,
    /// The client-chosen call id of this invocation.
    pub call_id: CallId,
    /// The request encoding.
    pub encoding: String,
    /// The request payload: an owned, reference-counted byte buffer that is
    /// cheap to clone.
    pub payload: bytes::Bytes,
}

/// The failure document for a service call, sent to the calling client.
pub open spec fn call_failure_json(service_id: u32, call_id: u32, message: Seq<char>) -> Seq<
    char,
> {
    "{\"op\":\"serviceCallFailure\",\"serviceId\":"@ + dec_digits(service_id as int)
        + ",\"callId\":"@ + dec_digits(call_id as int) + ",\"message\":\""@ + json_escape(message)
        + "\"}"@
}

/// A handler's answer to one service call: what is sent to the calling
/// client, together with the released call permit.
pub enum ServiceReply {
    /// A fulfilled call: the binary service-response frame.
    Response(Vec<u8>, SemaphoreGuard),
    /// A failed call: the failure document carrying the handler's message.
    Failure(String, SemaphoreGuard),
}

/// A one-shot reply handle for an accepted service call. Answering consumes
/// the handle, so each accepted call is answered exactly once; the held call
/// permit comes back with the reply. The embedding code maps a handle that a
/// handler drops unanswered to a default failure document.
pub struct Responder {
    client_id: u32,
    service_id: ServiceId,
    call_id: CallId,
    encoding: Vec<u8>,
    guard: SemaphoreGuard,
}

impl Responder {
    /// The calling client, for use in specifications.
    pub closed spec fn spec_client_id(&self) -> u32 {
        self.client_id
    }

    /// The called service, for use in specifications.
    pub closed spec fn spec_service_id(&self) -> ServiceId {
        self.service_id
    }

    /// The call id, for use in specifications.
    pub closed spec fn spec_call_id(&self) -> CallId {
        self.call_id
    }

    /// The UTF-8 bytes of the response encoding, for use in specifications.
    pub closed spec fn spec_encoding(&self) -> Seq<u8> {
        self.encoding@
    }

    /// Creates the reply handle for an accepted call. The encoding is the
    /// response encoding the frame will declare; the wire format carries its
    /// byte count as a 32-bit integer.
    pub fn new(
        client_id: u32,
        service_id: ServiceId,
        call_id: CallId,
        encoding: &str,
        guard: SemaphoreGuard,
    ) -> (r: Self)
        requires
            vstd::utf8::encode_utf8(encoding@).len() <= u32::MAX,
        ensures
            r.spec_client_id() == client_id,
            r.spec_service_id() == service_id,
            r.spec_call_id() == call_id,
            r.spec_encoding() == vstd::utf8::encode_utf8(encoding@),
            r.spec_encoding().len() <= u32::MAX,
    {
        Responder {
            client_id,
            service_id,
            call_id,
            encoding: encoding.as_bytes_vec(),
            guard,
        }
    }

    /// The calling client.
    pub fn client_id(&self) -> (r: u32)
        ensures
            r == self.spec_client_id(),
    {
        self.client_id
    }

    /// Fulfils the call: the binary service-response frame for the calling
    /// client, with the released call permit.
    pub fn respond_ok(self, payload: bytes::Bytes) -> (r: ServiceReply)
        requires
            self.spec_encoding().len() <= u32::MAX,
        ensures
            (match r {
                ServiceReply::Response(frame, _) => frame@ == service_response_frame(
                    self.spec_service_id().0,
                    self.spec_call_id().0,
                    self.spec_encoding(),
                    bytes_data(payload),
                ),
                ServiceReply::Failure(_, _) => false,
            }),
    {
        let body = bytes_to_vec(&payload);
        ServiceReply::Response(
            encode_service_response(self.service_id.0, self.call_id.0, &self.encoding, &body),
            self.guard,
        )
    }

    /// Fails the call: the failure document for the calling client, carrying
    /// the handler's message, with the released call permit.
    pub fn respond_err(self, message: &str) -> (r: ServiceReply)
        ensures
            (match r {
                ServiceReply::Failure(doc, _) => doc@ == call_failure_json(
                    self.spec_service_id().0,
                    self.spec_call_id().0,
                    message@,
                ),
                ServiceReply::Response(_, _) => false,
            }),
    {
        let mut out = String::new();
        out.append("{\"op\":\"serviceCallFailure\",\"serviceId\":");
        let sid = u64_to_decimal(self.service_id.0 as u64);
        out.append(sid.as_str());
        out.append(",\"callId\":");
        let cid = u64_to_decimal(self.call_id.0 as u64);
        out.append(cid.as_str());
        out.append(",\"message\":\"");
        append_json_escaped(&mut out, message);
        out.append("\"}");
        proof {
            assert(out@ =~= call_failure_json(
                self.spec_service_id().0,
                self.spec_call_id().0,
                message@,
            ));
        }
        ServiceReply::Failure(out, self.guard)
    }
}

/// A handler for service calls. The embedding code schedules the work,
/// synchronously, on a thread pool or on an async runtime; in every variant
/// the handler must eventually drive the responder.
pub trait Handler: Send + Sync {
    /// Handle the call, answering through the responder.
    fn call(&self, request: Request, responder: Responder) -> ServiceReply;
}

} // verus!
