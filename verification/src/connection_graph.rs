use vstd::prelude::*;
use vstd::seq_lib::*;
use vstd::string::*;

use crate::json::{
    append_json_escaped, append_string_array, id_views, json_escape, string_array_items,
    string_array_json,
};
use crate::text::{clone_string_vec, str_eq, vec_contains_str};

verus! {

/// The view of one map entry: the name and its ids, as character sequences.
pub open spec fn entry_view(e: (String, Vec<String>)) -> (Seq<char>, Seq<Seq<char>>) {
    (e.0@, id_views(e.1@))
}

/// The view of a list of map entries.
pub open spec fn pairs_view(s: Seq<(String, Vec<String>)>) -> Seq<(Seq<char>, Seq<Seq<char>>)> {
    s.map_values(|e: (String, Vec<String>)| entry_view(e))
}

/// True if the entry list holds an entry named `k`.
pub open spec fn map_has_key(m: Seq<(Seq<char>, Seq<Seq<char>>)>, k: Seq<char>) -> bool {
    exists|i: int| 0 <= i < m.len() && m[i].0 == k
}

/// The index of the entry named `k`, where one exists.
pub open spec fn key_index(m: Seq<(Seq<char>, Seq<Seq<char>>)>, k: Seq<char>) -> int {
    choose|i: int| 0 <= i < m.len() && m[i].0 == k
}

/// The ids of the entry named `k`, where one exists.
pub open spec fn map_ids(m: Seq<(Seq<char>, Seq<Seq<char>>)>, k: Seq<char>) -> Seq<Seq<char>> {
    m[key_index(m, k)].1
}

/// The set of ids denoted by an id list.
pub open spec fn id_set(ids: Seq<Seq<char>>) -> Set<Seq<char>> {
    Set::new(|x: Seq<char>| ids.contains(x))
}

/// True if the entry is new or changed relative to `prev`: `prev` has no
/// entry of that name, or it has one with a different id set.
pub open spec fn entry_changed(
    prev: Seq<(Seq<char>, Seq<Seq<char>>)>,
    e: (Seq<char>, Seq<Seq<char>>),
) -> bool {
    !(map_has_key(prev, e.0) && id_set(map_ids(prev, e.0)) == id_set(e.1))
}

/// The entries of `upd` that are new or changed relative to `prev`, in the
/// order of `upd`.
pub open spec fn changed_entries(
    prev: Seq<(Seq<char>, Seq<Seq<char>>)>,
    upd: Seq<(Seq<char>, Seq<Seq<char>>)>,
) -> Seq<(Seq<char>, Seq<Seq<char>>)> {
    upd.filter(|e: (Seq<char>, Seq<Seq<char>>)| entry_changed(prev, e))
}

/// The names of `prev` entries that are absent from `upd`, in the order of
/// `prev`.
pub open spec fn removed_service_keys(
    prev: Seq<(Seq<char>, Seq<Seq<char>>)>,
    upd: Seq<(Seq<char>, Seq<Seq<char>>)>,
) -> Seq<Seq<char>> {
    prev.filter(|e: (Seq<char>, Seq<Seq<char>>)| !map_has_key(upd, e.0)).map_values(
        |e: (Seq<char>, Seq<Seq<char>>)| e.0,
    )
}

/// The topic names that appeared in either previous topic map and appear in
/// neither updated topic map: first those from the published map, then those
/// only in the subscribed map.
pub open spec fn removed_topic_keys(
    prev_pub: Seq<(Seq<char>, Seq<Seq<char>>)>,
    prev_sub: Seq<(Seq<char>, Seq<Seq<char>>)>,
    upd_pub: Seq<(Seq<char>, Seq<Seq<char>>)>,
    upd_sub: Seq<(Seq<char>, Seq<Seq<char>>)>,
) -> Seq<Seq<char>> {
    prev_pub.filter(
        |e: (Seq<char>, Seq<Seq<char>>)| !map_has_key(upd_pub, e.0) && !map_has_key(upd_sub, e.0),
    ).map_values(|e: (Seq<char>, Seq<Seq<char>>)| e.0) + prev_sub.filter(
        |e: (Seq<char>, Seq<Seq<char>>)|
            !map_has_key(upd_pub, e.0) && !map_has_key(upd_sub, e.0) && !map_has_key(
                prev_pub,
                e.0,
            ),
    ).map_values(|e: (Seq<char>, Seq<Seq<char>>)| e.0)
}

/// An ordered list of named id lists, as the maps and the diff hold it.
pub type EntryList = Vec<(String, Vec<String>)>;

/// A mapping from topic or service names to sets of string ids, kept as an
/// ordered list of entries with distinct names.
#[derive(Debug)]
pub struct MapOfSets {
    entries: Vec<(String, Vec<String>)>,
}

impl MapOfSets {
    /// The entries, as character sequences, for use in specifications.
    pub closed spec fn view_entries(&self) -> Seq<(Seq<char>, Seq<Seq<char>>)> {
        pairs_view(self.entries@)
    }

    /// Well-formedness: names are distinct, and each id list has no
    /// duplicates.
    pub open spec fn wf(&self) -> bool {
        &&& forall|i: int, j: int|
            #![trigger self.view_entries()[i], self.view_entries()[j]]
            0 <= i < j < self.view_entries().len() ==> self.view_entries()[i].0
                != self.view_entries()[j].0
        &&& forall|i: int|
            0 <= i < self.view_entries().len() ==> (#[trigger] self.view_entries()[
                i
            ].1).no_duplicates()
    }

    /// Creates an empty map.
    pub fn new() -> (r: Self)
        ensures
            r.view_entries().len() == 0,
            r.wf(),
    {
        MapOfSets { entries: Vec::new() }
    }

    /// True if the map holds an entry with this name.
    pub fn contains_key(&self, name: &str) -> (r: bool)
        ensures
            r == map_has_key(self.view_entries(), name@),
    {
        let n = self.entries.len();
        let mut i: usize = 0;
        while i < n
            invariant
                n == self.entries@.len(),
                0 <= i <= n,
                forall|k: int| 0 <= k < i ==> self.view_entries()[k].0 != name@,
            decreases n - i,
        {
            if str_eq(self.entries[i].0.as_str(), name) {
                proof {
                    assert(self.view_entries()[i as int].0 == name@);
                }
                return true;
            }
            i = i + 1;
        }
        proof {
            assert(forall|k: int|
                0 <= k < self.view_entries().len() ==> self.view_entries()[k].0 != name@);
        }
        false
    }

    /// Looks up the id list of an entry by name.
    pub fn get(&self, name: &str) -> (r: Option<&Vec<String>>)
        requires
            self.wf(),
        ensures
            r is Some <==> map_has_key(self.view_entries(), name@),
            r matches Some(ids) ==> id_views(ids@) == map_ids(self.view_entries(), name@),
    {
        let n = self.entries.len();
        let mut i: usize = 0;
        while i < n
            invariant
                self.wf(),
                n == self.entries@.len(),
                0 <= i <= n,
                forall|k: int| 0 <= k < i ==> self.view_entries()[k].0 != name@,
            decreases n - i,
        {
            if str_eq(self.entries[i].0.as_str(), name) {
                proof {
                    assert(self.view_entries()[i as int].0 == name@);
                    let j = key_index(self.view_entries(), name@);
                    assert(0 <= j < self.view_entries().len() && self.view_entries()[j].0
                        == name@);
                    if j != i {
                        assert(self.view_entries()[i as int].0 != self.view_entries()[j].0);
                    }
                }
                return Some(&self.entries[i].1);
            }
            i = i + 1;
        }
        None
    }

    /// Inserts an entry, replacing any entry of the same name. The ids must
    /// be distinct, as they denote a set.
    pub fn insert(&mut self, name: &str, ids: Vec<String>)
        requires
            old(self).wf(),
            id_views(ids@).no_duplicates(),
        ensures
            final(self).wf(),
            final(self).view_entries() == if map_has_key(old(self).view_entries(), name@) {
                old(self).view_entries().update(
                    key_index(old(self).view_entries(), name@),
                    (name@, id_views(ids@)),
                )
            } else {
                old(self).view_entries().push((name@, id_views(ids@)))
            },
    {
        let ghost pre = old(self).view_entries();
        let n = self.entries.len();
        let mut i: usize = 0;
        while i < n
            invariant
                pre == old(self).view_entries(),
                self.entries@ == old(self).entries@,
                old(self).wf(),
                id_views(ids@).no_duplicates(),
                n == self.entries@.len(),
                0 <= i <= n,
                forall|k: int| 0 <= k < i ==> pre[k].0 != name@,
            decreases n - i,
        {
            if str_eq(self.entries[i].0.as_str(), name) {
                proof {
                    assert(pre[i as int].0 == name@);
                    let j = key_index(pre, name@);
                    assert(0 <= j < pre.len() && pre[j].0 == name@);
                    if j != i {
                        assert(old(self).view_entries()[i as int].0 != old(self).view_entries()[
                            j
                        ].0);
                    }
                }
                self.entries.set(i, (name.to_owned(), ids));
                proof {
                    assert(self.view_entries() =~= pre.update(
                        i as int,
                        (name@, id_views(ids@)),
                    ));
                    let post = self.view_entries();
                    assert forall|p: int, q: int|
                        #![trigger post[p], post[q]]
                        0 <= p < q < post.len() implies post[p].0 != post[q].0 by {
                        assert(old(self).view_entries()[p].0 != old(self).view_entries()[q].0);
                    }
                    assert(forall|p: int|
                        0 <= p < post.len() && p != i ==> post[p] == old(self).view_entries()[p]);
                    assert forall|p: int| 0 <= p < post.len() implies (#[trigger] post[
                        p
                    ].1).no_duplicates() by {
                        if p != i {
                            assert(old(self).view_entries()[p].1.no_duplicates());
                        }
                    }
                }
                return ;
            }
            i = i + 1;
        }
        self.entries.push((name.to_owned(), ids));
        proof {
            assert(self.view_entries() =~= pre.push((name@, id_views(ids@))));
            let post = self.view_entries();
            assert(forall|k: int| 0 <= k < pre.len() ==> pre[k].0 != name@);
            assert forall|p: int, q: int|
                #![trigger post[p], post[q]]
                0 <= p < q < post.len() implies post[p].0 != post[q].0 by {
                if q == pre.len() {
                    assert(old(self).view_entries()[p].0 == pre[p].0);
                } else {
                    assert(old(self).view_entries()[p].0 != old(self).view_entries()[q].0);
                }
            }
            assert forall|p: int| 0 <= p < post.len() implies (#[trigger] post[
                p
            ].1).no_duplicates() by {
                if p < pre.len() {
                    assert(old(self).view_entries()[p].1.no_duplicates());
                }
            }
        }
    }
}

impl Default for MapOfSets {
    /// An empty map.
    fn default() -> (r: Self)
        ensures
            r.view_entries().len() == 0,
            r.wf(),
    {
        MapOfSets { entries: Vec::new() }
    }
}

/// True if every id of `a` occurs in `b`.
fn ids_subset(a: &Vec<String>, b: &Vec<String>) -> (r: bool)
    ensures
        r == id_set(id_views(a@)).subset_of(id_set(id_views(b@))),
{
    let n = a.len();
    let mut i: usize = 0;
    while i < n
        invariant
            n == a@.len(),
            0 <= i <= n,
            forall|k: int| 0 <= k < i ==> id_set(id_views(b@)).contains(#[trigger] id_views(a@)[k]),
        decreases n - i,
    {
        if !vec_contains_str(b, a[i].as_str()) {
            proof {
                assert(id_views(a@)[i as int] == a@[i as int]@);
                assert(!id_views(b@).contains(a@[i as int]@)) by {
                    if exists|j: int| 0 <= j < id_views(b@).len() && id_views(b@)[j] == a@[
                        i as int
                    ]@ {
                        let j = choose|j: int|
                            0 <= j < id_views(b@).len() && id_views(b@)[j] == a@[i as int]@;
                        assert(b@[j]@ == a@[i as int]@);
                    }
                }
                assert(id_set(id_views(a@)).contains(a@[i as int]@));
            }
            return false;
        }
        proof {
            let s = a@[i as int]@;
            let j = choose|j: int| 0 <= j < b@.len() && b@[j]@ == s;
            assert(id_views(b@)[j] == s);
            assert(id_views(b@).contains(s));
            assert(id_set(id_views(b@)).contains(id_views(a@)[i as int]));
        }
        i = i + 1;
    }
    proof {
        assert forall|x: Seq<char>| id_set(id_views(a@)).contains(x) implies id_set(
            id_views(b@),
        ).contains(x) by {
            let k = choose|k: int| 0 <= k < id_views(a@).len() && id_views(a@)[k] == x;
            assert(id_set(id_views(b@)).contains(id_views(a@)[k]));
        }
    }
    true
}

/// True if `a` and `b` denote the same id set.
fn ids_set_eq(a: &Vec<String>, b: &Vec<String>) -> (r: bool)
    ensures
        r == (id_set(id_views(a@)) == id_set(id_views(b@))),
{
    let fwd = ids_subset(a, b);
    let bwd = ids_subset(b, a);
    if fwd && bwd {
        proof {
            assert(id_set(id_views(a@)) =~= id_set(id_views(b@)));
        }
        true
    } else {
        proof {
            if id_set(id_views(a@)) == id_set(id_views(b@)) {
                assert(id_set(id_views(a@)).subset_of(id_set(id_views(b@))));
                assert(id_set(id_views(b@)).subset_of(id_set(id_views(a@))));
            }
        }
        false
    }
}

/// The JSON object for one named entry with its id array.
pub open spec fn entry_json(e: (Seq<char>, Seq<Seq<char>>), field: Seq<char>) -> Seq<char> {
    "{\"name\":\""@ + json_escape(e.0) + "\",\""@ + field + "\":"@ + string_array_json(e.1)
        + "}"@
}

/// The items of a JSON array of entry objects, for the first `n` entries.
pub open spec fn entries_array_items(
    entries: Seq<(Seq<char>, Seq<Seq<char>>)>,
    field: Seq<char>,
    n: int,
) -> Seq<char>
    decreases n,
{
    if n <= 0 {
        Seq::empty()
    } else if n == 1 {
        entry_json(entries[0], field)
    } else {
        entries_array_items(entries, field, n - 1) + ","@ + entry_json(entries[n - 1], field)
    }
}

/// A JSON array of entry objects.
pub open spec fn entries_array_json(
    entries: Seq<(Seq<char>, Seq<Seq<char>>)>,
    field: Seq<char>,
) -> Seq<char> {
    "["@ + entries_array_items(entries, field, entries.len() as int) + "]"@
}

/// The connection-graph update document: the five diff arrays, keyed by the
/// operation tag.
pub open spec fn diff_json(
    pub_entries: Seq<(Seq<char>, Seq<Seq<char>>)>,
    sub_entries: Seq<(Seq<char>, Seq<Seq<char>>)>,
    adv_entries: Seq<(Seq<char>, Seq<Seq<char>>)>,
    removed_topics: Seq<Seq<char>>,
    removed_services: Seq<Seq<char>>,
) -> Seq<char> {
    "{\"op\":\"connectionGraphUpdate\",\"publishedTopics\":"@ + entries_array_json(
        pub_entries,
        "publisherIds"@,
    ) + ",\"subscribedTopics\":"@ + entries_array_json(sub_entries, "subscriberIds"@)
        + ",\"advertisedServices\":"@ + entries_array_json(adv_entries, "providerIds"@)
        + ",\"removedTopics\":"@ + string_array_json(removed_topics) + ",\"removedServices\":"@
        + string_array_json(removed_services) + "}"@
}

/// Appends a JSON array of named entries to `out`.
fn append_entries_array(out: &mut String, entries: &EntryList, field: &str)
    ensures
        final(out)@ == old(out)@ + entries_array_json(pairs_view(entries@), field@),
{
    let n = entries.len();
    out.append("[");
    let mut i: usize = 0;
    while i < n
        invariant
            n == entries@.len(),
            0 <= i <= n,
            out@ == old(out)@ + "["@ + entries_array_items(pairs_view(entries@), field@, i as int),
        decreases n - i,
    {
        if i > 0 {
            out.append(",");
        }
        out.append("{\"name\":\"");
        append_json_escaped(out, entries[i].0.as_str());
        out.append("\",\"");
        out.append(field);
        out.append("\":");
        append_string_array(out, &entries[i].1);
        out.append("}");
        proof {
            assert(pairs_view(entries@)[i as int] == entry_view(entries@[i as int]));
            assert(out@ =~= old(out)@ + "["@ + entries_array_items(
                pairs_view(entries@),
                field@,
                i + 1,
            ));
        }
        i = i + 1;
    }
    out.append("]");
    proof {
        assert(out@ =~= old(out)@ + entries_array_json(pairs_view(entries@), field@));
    }
}

/// One unfolding step of `changed_entries` along a prefix of `upd`.
proof fn lemma_changed_take_step(
    prev: Seq<(Seq<char>, Seq<Seq<char>>)>,
    upd: Seq<(Seq<char>, Seq<Seq<char>>)>,
    i: int,
)
    requires
        0 <= i < upd.len(),
    ensures
        changed_entries(prev, upd.take(i + 1)) == if entry_changed(prev, upd[i]) {
            changed_entries(prev, upd.take(i)).push(upd[i])
        } else {
            changed_entries(prev, upd.take(i))
        },
{
    reveal(Seq::filter);
    assert(upd.take(i + 1).drop_last() =~= upd.take(i));
    assert(upd.take(i + 1).last() == upd[i]);
}

/// One unfolding step of `removed_service_keys` along a prefix of `prev`.
proof fn lemma_removed_services_take_step(
    prev: Seq<(Seq<char>, Seq<Seq<char>>)>,
    upd: Seq<(Seq<char>, Seq<Seq<char>>)>,
    i: int,
)
    requires
        0 <= i < prev.len(),
    ensures
        removed_service_keys(prev.take(i + 1), upd) == if !map_has_key(upd, prev[i].0) {
            removed_service_keys(prev.take(i), upd).push(prev[i].0)
        } else {
            removed_service_keys(prev.take(i), upd)
        },
{
    reveal(Seq::filter);
    assert(prev.take(i + 1).drop_last() =~= prev.take(i));
    assert(prev.take(i + 1).last() == prev[i]);
    let pred = |e: (Seq<char>, Seq<Seq<char>>)| !map_has_key(upd, e.0);
    let f = |e: (Seq<char>, Seq<Seq<char>>)| e.0;
    if pred(prev[i]) {
        assert(prev.take(i + 1).filter(pred) == prev.take(i).filter(pred).push(prev[i]));
        assert(prev.take(i + 1).filter(pred).map_values(f) =~= prev.take(i).filter(
            pred,
        ).map_values(f).push(prev[i].0));
    }
}

/// The published-map part of `removed_topic_keys`.
pub open spec fn removed_topics_pub(
    prev_pub: Seq<(Seq<char>, Seq<Seq<char>>)>,
    upd_pub: Seq<(Seq<char>, Seq<Seq<char>>)>,
    upd_sub: Seq<(Seq<char>, Seq<Seq<char>>)>,
) -> Seq<Seq<char>> {
    prev_pub.filter(
        |e: (Seq<char>, Seq<Seq<char>>)| !map_has_key(upd_pub, e.0) && !map_has_key(upd_sub, e.0),
    ).map_values(|e: (Seq<char>, Seq<Seq<char>>)| e.0)
}

/// The subscribed-map part of `removed_topic_keys`.
pub open spec fn removed_topics_sub(
    prev_pub: Seq<(Seq<char>, Seq<Seq<char>>)>,
    prev_sub: Seq<(Seq<char>, Seq<Seq<char>>)>,
    upd_pub: Seq<(Seq<char>, Seq<Seq<char>>)>,
    upd_sub: Seq<(Seq<char>, Seq<Seq<char>>)>,
) -> Seq<Seq<char>> {
    prev_sub.filter(
        |e: (Seq<char>, Seq<Seq<char>>)|
            !map_has_key(upd_pub, e.0) && !map_has_key(upd_sub, e.0) && !map_has_key(
                prev_pub,
                e.0,
            ),
    ).map_values(|e: (Seq<char>, Seq<Seq<char>>)| e.0)
}

/// The two parts together give `removed_topic_keys`.
proof fn lemma_removed_topics_parts(
    prev_pub: Seq<(Seq<char>, Seq<Seq<char>>)>,
    prev_sub: Seq<(Seq<char>, Seq<Seq<char>>)>,
    upd_pub: Seq<(Seq<char>, Seq<Seq<char>>)>,
    upd_sub: Seq<(Seq<char>, Seq<Seq<char>>)>,
)
    ensures
        removed_topic_keys(prev_pub, prev_sub, upd_pub, upd_sub) == removed_topics_pub(
            prev_pub,
            upd_pub,
            upd_sub,
        ) + removed_topics_sub(prev_pub, prev_sub, upd_pub, upd_sub),
{
}

/// One unfolding step of `removed_topics_pub` along a prefix of `prev_pub`.
proof fn lemma_removed_topics_pub_step(
    prev_pub: Seq<(Seq<char>, Seq<Seq<char>>)>,
    upd_pub: Seq<(Seq<char>, Seq<Seq<char>>)>,
    upd_sub: Seq<(Seq<char>, Seq<Seq<char>>)>,
    i: int,
)
    requires
        0 <= i < prev_pub.len(),
    ensures
        removed_topics_pub(prev_pub.take(i + 1), upd_pub, upd_sub) == if !map_has_key(
            upd_pub,
            prev_pub[i].0,
        ) && !map_has_key(upd_sub, prev_pub[i].0) {
            removed_topics_pub(prev_pub.take(i), upd_pub, upd_sub).push(prev_pub[i].0)
        } else {
            removed_topics_pub(prev_pub.take(i), upd_pub, upd_sub)
        },
{
    reveal(Seq::filter);
    assert(prev_pub.take(i + 1).drop_last() =~= prev_pub.take(i));
    assert(prev_pub.take(i + 1).last() == prev_pub[i]);
    let pred = |e: (Seq<char>, Seq<Seq<char>>)| !map_has_key(upd_pub, e.0) && !map_has_key(
        upd_sub,
        e.0,
    );
    let f = |e: (Seq<char>, Seq<Seq<char>>)| e.0;
    if pred(prev_pub[i]) {
        assert(prev_pub.take(i + 1).filter(pred).map_values(f) =~= prev_pub.take(i).filter(
            pred,
        ).map_values(f).push(prev_pub[i].0));
    }
}

/// One unfolding step of `removed_topics_sub` along a prefix of `prev_sub`.
proof fn lemma_removed_topics_sub_step(
    prev_pub: Seq<(Seq<char>, Seq<Seq<char>>)>,
    prev_sub: Seq<(Seq<char>, Seq<Seq<char>>)>,
    upd_pub: Seq<(Seq<char>, Seq<Seq<char>>)>,
    upd_sub: Seq<(Seq<char>, Seq<Seq<char>>)>,
    i: int,
)
    requires
        0 <= i < prev_sub.len(),
    ensures
        removed_topics_sub(prev_pub, prev_sub.take(i + 1), upd_pub, upd_sub) == if !map_has_key(
            upd_pub,
            prev_sub[i].0,
        ) && !map_has_key(upd_sub, prev_sub[i].0) && !map_has_key(prev_pub, prev_sub[i].0) {
            removed_topics_sub(prev_pub, prev_sub.take(i), upd_pub, upd_sub).push(prev_sub[i].0)
        } else {
            removed_topics_sub(prev_pub, prev_sub.take(i), upd_pub, upd_sub)
        },
{
    reveal(Seq::filter);
    assert(prev_sub.take(i + 1).drop_last() =~= prev_sub.take(i));
    assert(prev_sub.take(i + 1).last() == prev_sub[i]);
    let pred = |e: (Seq<char>, Seq<Seq<char>>)|
        !map_has_key(upd_pub, e.0) && !map_has_key(upd_sub, e.0) && !map_has_key(prev_pub, e.0);
    let f = |e: (Seq<char>, Seq<Seq<char>>)| e.0;
    if pred(prev_sub[i]) {
        assert(prev_sub.take(i + 1).filter(pred).map_values(f) =~= prev_sub.take(i).filter(
            pred,
        ).map_values(f).push(prev_sub[i].0));
    }
}

/// The new-or-changed entries of `upd` relative to `prev`, as owned values.
fn changed_list(prev: &MapOfSets, upd: &MapOfSets) -> (r: EntryList)
    requires
        prev.wf(),
        upd.wf(),
    ensures
        pairs_view(r@) == changed_entries(prev.view_entries(), upd.view_entries()),
{
    let ghost prevv = prev.view_entries();
    let ghost updv = upd.view_entries();
    let n = upd.entries.len();
    let mut out: EntryList = Vec::new();
    let mut i: usize = 0;
    while i < n
        invariant
            prev.wf(),
            upd.wf(),
            prevv == prev.view_entries(),
            updv == upd.view_entries(),
            n == upd.entries@.len(),
            0 <= i <= n,
            pairs_view(out@) == changed_entries(prevv, updv.take(i as int)),
        decreases n - i,
    {
        let name = upd.entries[i].0.as_str();
        let ids = &upd.entries[i].1;
        proof {
            assert(updv[i as int] == entry_view(upd.entries@[i as int]));
        }
        let changed = match prev.get(name) {
            Some(prev_ids) => !ids_set_eq(prev_ids, ids),
            None => true,
        };
        proof {
            assert(changed == entry_changed(prevv, updv[i as int]));
            lemma_changed_take_step(prevv, updv, i as int);
        }
        if changed {
            out.push((upd.entries[i].0.clone(), clone_string_vec(ids)));
            proof {
                assert(pairs_view(out@) =~= changed_entries(prevv, updv.take(i as int)).push(
                    updv[i as int],
                ));
            }
        }
        i = i + 1;
    }
    proof {
        assert(updv.take(n as int) =~= updv);
    }
    out
}

/// The names of `prev` entries absent from `upd`, as owned values.
fn removed_list(prev: &MapOfSets, upd: &MapOfSets) -> (r: Vec<String>)
    ensures
        id_views(r@) == removed_service_keys(prev.view_entries(), upd.view_entries()),
{
    let ghost prevv = prev.view_entries();
    let ghost updv = upd.view_entries();
    let n = prev.entries.len();
    let mut out: Vec<String> = Vec::new();
    let mut i: usize = 0;
    while i < n
        invariant
            prevv == prev.view_entries(),
            updv == upd.view_entries(),
            n == prev.entries@.len(),
            0 <= i <= n,
            id_views(out@) == removed_service_keys(prevv.take(i as int), updv),
        decreases n - i,
    {
        proof {
            assert(prevv[i as int] == entry_view(prev.entries@[i as int]));
            lemma_removed_services_take_step(prevv, updv, i as int);
        }
        if !upd.contains_key(prev.entries[i].0.as_str()) {
            out.push(prev.entries[i].0.clone());
            proof {
                assert(id_views(out@) =~= removed_service_keys(prevv.take(i as int), updv).push(
                    prevv[i as int].0,
                ));
            }
        }
        i = i + 1;
    }
    proof {
        assert(prevv.take(n as int) =~= prevv);
    }
    out
}

/// The topic names that left both topic maps, as owned values.
fn removed_topics_list(prev: &ConnectionGraph, upd: &ConnectionGraph) -> (r: Vec<String>)
    ensures
        id_views(r@) == removed_topic_keys(
            prev.published_topics.view_entries(),
            prev.subscribed_topics.view_entries(),
            upd.published_topics.view_entries(),
            upd.subscribed_topics.view_entries(),
        ),
{
    let ghost pp = prev.published_topics.view_entries();
    let ghost ps = prev.subscribed_topics.view_entries();
    let ghost up = upd.published_topics.view_entries();
    let ghost us = upd.subscribed_topics.view_entries();
    let n1 = prev.published_topics.entries.len();
    let mut out: Vec<String> = Vec::new();
    let mut i: usize = 0;
    while i < n1
        invariant
            pp == prev.published_topics.view_entries(),
            ps == prev.subscribed_topics.view_entries(),
            up == upd.published_topics.view_entries(),
            us == upd.subscribed_topics.view_entries(),
            n1 == prev.published_topics.entries@.len(),
            0 <= i <= n1,
            id_views(out@) == removed_topics_pub(pp.take(i as int), up, us),
        decreases n1 - i,
    {
        proof {
            assert(pp[i as int] == entry_view(prev.published_topics.entries@[i as int]));
            lemma_removed_topics_pub_step(pp, up, us, i as int);
        }
        let name = prev.published_topics.entries[i].0.as_str();
        if !upd.published_topics.contains_key(name) && !upd.subscribed_topics.contains_key(name) {
            out.push(prev.published_topics.entries[i].0.clone());
            proof {
                assert(id_views(out@) =~= removed_topics_pub(pp.take(i as int), up, us).push(
                    pp[i as int].0,
                ));
            }
        }
        i = i + 1;
    }
    proof {
        assert(pp.take(n1 as int) =~= pp);
    }
    let n2 = prev.subscribed_topics.entries.len();
    let mut j: usize = 0;
    while j < n2
        invariant
            pp == prev.published_topics.view_entries(),
            ps == prev.subscribed_topics.view_entries(),
            up == upd.published_topics.view_entries(),
            us == upd.subscribed_topics.view_entries(),
            n2 == prev.subscribed_topics.entries@.len(),
            0 <= j <= n2,
            id_views(out@) == removed_topics_pub(pp, up, us) + removed_topics_sub(
                pp,
                ps.take(j as int),
                up,
                us,
            ),
        decreases n2 - j,
    {
        proof {
            assert(ps[j as int] == entry_view(prev.subscribed_topics.entries@[j as int]));
            lemma_removed_topics_sub_step(pp, ps, up, us, j as int);
        }
        let name = prev.subscribed_topics.entries[j].0.as_str();
        if !upd.published_topics.contains_key(name) && !upd.subscribed_topics.contains_key(name)
            && !prev.published_topics.contains_key(name) {
            let ghost out_pre = out@;
            out.push(prev.subscribed_topics.entries[j].0.clone());
            proof {
                assert(id_views(out@) =~= id_views(out_pre).push(ps[j as int].0));
                assert(id_views(out@) =~= removed_topics_pub(pp, up, us) + removed_topics_sub(
                    pp,
                    ps.take(j as int),
                    up,
                    us,
                ).push(ps[j as int].0));
            }
        }
        j = j + 1;
    }
    proof {
        assert(ps.take(n2 as int) =~= ps);
        lemma_removed_topics_parts(pp, ps, up, us);
    }
    out
}

/// The incremental difference between two connection-graph snapshots: the
/// new-or-changed entries of each mapping, and what was removed.
#[derive(Debug)]
pub struct ConnectionGraphDiff {
    /// New or changed published topics.
    pub published_topics: EntryList,
    /// New or changed subscribed topics.
    pub subscribed_topics: EntryList,
    /// New or changed advertised services.
    pub advertised_services: EntryList,
    /// Topic names no longer published or subscribed.
    pub removed_topics: Vec<String>,
    /// Service names no longer advertised.
    pub removed_services: Vec<String>,
}

impl ConnectionGraphDiff {
    /// An empty difference.
    pub fn new() -> (r: Self)
        ensures
            r.published_topics@.len() == 0,
            r.subscribed_topics@.len() == 0,
            r.advertised_services@.len() == 0,
            r.removed_topics@.len() == 0,
            r.removed_services@.len() == 0,
    {
        ConnectionGraphDiff {
            published_topics: Vec::new(),
            subscribed_topics: Vec::new(),
            advertised_services: Vec::new(),
            removed_topics: Vec::new(),
            removed_services: Vec::new(),
        }
    }

    /// Renders the difference as a connection-graph update document.
    pub fn to_json(&self) -> (r: String)
        ensures
            r@ == diff_json(
                pairs_view(self.published_topics@),
                pairs_view(self.subscribed_topics@),
                pairs_view(self.advertised_services@),
                id_views(self.removed_topics@),
                id_views(self.removed_services@),
            ),
    {
        let mut out = String::new();
        out.append("{\"op\":\"connectionGraphUpdate\",\"publishedTopics\":");
        append_entries_array(&mut out, &self.published_topics, "publisherIds");
        out.append(",\"subscribedTopics\":");
        append_entries_array(&mut out, &self.subscribed_topics, "subscriberIds");
        out.append(",\"advertisedServices\":");
        append_entries_array(&mut out, &self.advertised_services, "providerIds");
        out.append(",\"removedTopics\":");
        append_string_array(&mut out, &self.removed_topics);
        out.append(",\"removedServices\":");
        append_string_array(&mut out, &self.removed_services);
        out.append("}");
        proof {
            assert(out@ =~= diff_json(
                pairs_view(self.published_topics@),
                pairs_view(self.subscribed_topics@),
                pairs_view(self.advertised_services@),
                id_views(self.removed_topics@),
                id_views(self.removed_services@),
            ));
        }
        out
    }
}

/// The connection graph data: active topics with their publisher and
/// subscriber ids, and active services with their provider ids.
#[derive(Debug)]
pub struct ConnectionGraph {
    /// A map of active topic names to the set of string publisher ids.
    pub published_topics: MapOfSets,
    /// A map of active topic names to the set of string subscriber ids.
    pub subscribed_topics: MapOfSets,
    /// A map of active service names to the set of string provider ids.
    pub advertised_services: MapOfSets,
}

impl ConnectionGraph {
    /// Well-formedness of the three mappings.
    pub open spec fn wf(&self) -> bool {
        self.published_topics.wf() && self.subscribed_topics.wf() && self.advertised_services.wf()
    }

    /// Create a new, empty connection graph.
    pub fn new() -> (r: Self)
        ensures
            r.published_topics.view_entries().len() == 0,
            r.subscribed_topics.view_entries().len() == 0,
            r.advertised_services.view_entries().len() == 0,
            r.wf(),
    {
        ConnectionGraph {
            published_topics: MapOfSets::new(),
            subscribed_topics: MapOfSets::new(),
            advertised_services: MapOfSets::new(),
        }
    }

    /// Replace self with `updated`, computing the difference and returning it
    /// as a connection-graph update document.
    pub fn update(&mut self, updated: ConnectionGraph) -> (r: String)
        requires
            old(self).wf(),
            updated.wf(),
        ensures
            *final(self) == updated,
            r@ == diff_json(
                changed_entries(
                    old(self).published_topics.view_entries(),
                    updated.published_topics.view_entries(),
                ),
                changed_entries(
                    old(self).subscribed_topics.view_entries(),
                    updated.subscribed_topics.view_entries(),
                ),
                changed_entries(
                    old(self).advertised_services.view_entries(),
                    updated.advertised_services.view_entries(),
                ),
                removed_topic_keys(
                    old(self).published_topics.view_entries(),
                    old(self).subscribed_topics.view_entries(),
                    updated.published_topics.view_entries(),
                    updated.subscribed_topics.view_entries(),
                ),
                removed_service_keys(
                    old(self).advertised_services.view_entries(),
                    updated.advertised_services.view_entries(),
                ),
            ),
    {
        let diff = ConnectionGraphDiff {
            published_topics: changed_list(&self.published_topics, &updated.published_topics),
            subscribed_topics: changed_list(&self.subscribed_topics, &updated.subscribed_topics),
            advertised_services: changed_list(
                &self.advertised_services,
                &updated.advertised_services,
            ),
            removed_topics: removed_topics_list(self, &updated),
            removed_services: removed_list(&self.advertised_services, &updated.advertised_services),
        };
        let json = diff.to_json();
        *self = updated;
        json
    }
}

impl Default for ConnectionGraph {
    /// A new, empty connection graph.
    fn default() -> (r: Self)
        ensures
            r.published_topics.view_entries().len() == 0,
            r.subscribed_topics.view_entries().len() == 0,
            r.advertised_services.view_entries().len() == 0,
            r.wf(),
    {
        ConnectionGraph::new()
    }
}

/// No entry of `upd` being new or changed, the changed-entry list is empty.
proof fn lemma_changed_entries_none(
    prev: Seq<(Seq<char>, Seq<Seq<char>>)>,
    upd: Seq<(Seq<char>, Seq<Seq<char>>)>,
)
    requires
        forall|i: int| 0 <= i < upd.len() ==> !entry_changed(prev, #[trigger] upd[i]),
    ensures
        changed_entries(prev, upd) == Seq::<(Seq<char>, Seq<Seq<char>>)>::empty(),
    decreases upd.len(),
{
    reveal(Seq::filter);
    if upd.len() > 0 {
        let front = upd.drop_last();
        assert(forall|i: int| 0 <= i < front.len() ==> front[i] == upd[i]);
        lemma_changed_entries_none(prev, front);
        assert(!entry_changed(prev, upd[upd.len() - 1]));
    }
}

/// No name of `prev` being absent from `upd`, the removed-name list is
/// empty.
proof fn lemma_removed_service_keys_none(
    prev: Seq<(Seq<char>, Seq<Seq<char>>)>,
    upd: Seq<(Seq<char>, Seq<Seq<char>>)>,
)
    requires
        forall|i: int| 0 <= i < prev.len() ==> map_has_key(upd, (#[trigger] prev[i]).0),
    ensures
        removed_service_keys(prev, upd) == Seq::<Seq<char>>::empty(),
    decreases prev.len(),
{
    reveal(Seq::filter);
    if prev.len() > 0 {
        let front = prev.drop_last();
        assert(forall|i: int| 0 <= i < front.len() ==> front[i] == prev[i]);
        lemma_removed_service_keys_none(front, upd);
        assert(map_has_key(upd, prev[prev.len() - 1].0));
        assert(removed_service_keys(prev, upd) =~= Seq::<Seq<char>>::empty());
    }
}

/// The published part of the removed-topic list is empty when every
/// previous published topic is still published.
proof fn lemma_removed_topics_pub_none(
    prev_pub: Seq<(Seq<char>, Seq<Seq<char>>)>,
    upd_pub: Seq<(Seq<char>, Seq<Seq<char>>)>,
    upd_sub: Seq<(Seq<char>, Seq<Seq<char>>)>,
)
    requires
        forall|i: int| 0 <= i < prev_pub.len() ==> map_has_key(upd_pub, (#[trigger] prev_pub[i]).0),
    ensures
        removed_topics_pub(prev_pub, upd_pub, upd_sub) == Seq::<Seq<char>>::empty(),
    decreases prev_pub.len(),
{
    reveal(Seq::filter);
    if prev_pub.len() > 0 {
        let front = prev_pub.drop_last();
        assert(forall|i: int| 0 <= i < front.len() ==> front[i] == prev_pub[i]);
        lemma_removed_topics_pub_none(front, upd_pub, upd_sub);
        assert(map_has_key(upd_pub, prev_pub[prev_pub.len() - 1].0));
        assert(removed_topics_pub(prev_pub, upd_pub, upd_sub) =~= Seq::<Seq<char>>::empty());
    }
}

/// The subscribed part of the removed-topic list is empty when every
/// previous subscribed topic is still subscribed.
proof fn lemma_removed_topics_sub_none(
    prev_pub: Seq<(Seq<char>, Seq<Seq<char>>)>,
    prev_sub: Seq<(Seq<char>, Seq<Seq<char>>)>,
    upd_pub: Seq<(Seq<char>, Seq<Seq<char>>)>,
    upd_sub: Seq<(Seq<char>, Seq<Seq<char>>)>,
)
    requires
        forall|i: int| 0 <= i < prev_sub.len() ==> map_has_key(upd_sub, (#[trigger] prev_sub[i]).0),
    ensures
        removed_topics_sub(prev_pub, prev_sub, upd_pub, upd_sub) == Seq::<Seq<char>>::empty(),
    decreases prev_sub.len(),
{
    reveal(Seq::filter);
    if prev_sub.len() > 0 {
        let front = prev_sub.drop_last();
        assert(forall|i: int| 0 <= i < front.len() ==> front[i] == prev_sub[i]);
        lemma_removed_topics_sub_none(prev_pub, front, upd_pub, upd_sub);
        assert(map_has_key(upd_sub, prev_sub[prev_sub.len() - 1].0));
        assert(removed_topics_sub(prev_pub, prev_sub, upd_pub, upd_sub) =~= Seq::<
            Seq<char>,
        >::empty());
    }
}

/// With distinct names, every entry of a map is unchanged relative to the
/// map itself.
proof fn lemma_entries_unchanged_against_self(m: Seq<(Seq<char>, Seq<Seq<char>>)>)
    requires
        forall|i: int, j: int|
            #![trigger m[i], m[j]]
            0 <= i < j < m.len() ==> m[i].0 != m[j].0,
    ensures
        forall|i: int| 0 <= i < m.len() ==> !entry_changed(m, #[trigger] m[i]),
        forall|i: int| 0 <= i < m.len() ==> map_has_key(m, (#[trigger] m[i]).0),
{
    assert forall|i: int| 0 <= i < m.len() implies !entry_changed(m, #[trigger] m[i]) by {
        assert(0 <= i < m.len() && m[i].0 == m[i].0);
        assert(map_has_key(m, m[i].0));
        let j = key_index(m, m[i].0);
        assert(0 <= j < m.len() && m[j].0 == m[i].0);
        if j != i {
            assert(m[i].0 != m[j].0);
        }
        assert(map_ids(m, m[i].0) == m[i].1);
    }
}

/// Updating with a snapshot identical to the last-published graph yields an
/// empty difference: all five arrays of the update document are empty.
pub proof fn lemma_update_idempotent(g: ConnectionGraph)
    requires
        g.wf(),
    ensures
        changed_entries(g.published_topics.view_entries(), g.published_topics.view_entries())
            == Seq::<(Seq<char>, Seq<Seq<char>>)>::empty(),
        changed_entries(g.subscribed_topics.view_entries(), g.subscribed_topics.view_entries())
            == Seq::<(Seq<char>, Seq<Seq<char>>)>::empty(),
        changed_entries(g.advertised_services.view_entries(), g.advertised_services.view_entries())
            == Seq::<(Seq<char>, Seq<Seq<char>>)>::empty(),
        removed_topic_keys(
            g.published_topics.view_entries(),
            g.subscribed_topics.view_entries(),
            g.published_topics.view_entries(),
            g.subscribed_topics.view_entries(),
        ) == Seq::<Seq<char>>::empty(),
        removed_service_keys(
            g.advertised_services.view_entries(),
            g.advertised_services.view_entries(),
        ) == Seq::<Seq<char>>::empty(),
{
    let pp = g.published_topics.view_entries();
    let ps = g.subscribed_topics.view_entries();
    let aa = g.advertised_services.view_entries();
    lemma_entries_unchanged_against_self(pp);
    lemma_entries_unchanged_against_self(ps);
    lemma_entries_unchanged_against_self(aa);
    lemma_changed_entries_none(pp, pp);
    lemma_changed_entries_none(ps, ps);
    lemma_changed_entries_none(aa, aa);
    lemma_removed_service_keys_none(aa, aa);
    lemma_removed_topics_pub_none(pp, pp, ps);
    lemma_removed_topics_sub_none(pp, ps, pp, ps);
    lemma_removed_topics_parts(pp, ps, pp, ps);
    assert(removed_topic_keys(pp, ps, pp, ps) =~= Seq::<Seq<char>>::empty());
}

/// Every changed entry is one of the updated map's entries.
proof fn lemma_changed_membership(
    prev: Seq<(Seq<char>, Seq<Seq<char>>)>,
    upd: Seq<(Seq<char>, Seq<Seq<char>>)>,
)
    ensures
        forall|k: int|
            0 <= k < changed_entries(prev, upd).len() ==> exists|j: int|
                0 <= j < upd.len() && #[trigger] changed_entries(prev, upd)[k] == upd[j],
    decreases upd.len(),
{
    reveal(Seq::filter);
    if upd.len() > 0 {
        let front = upd.drop_last();
        lemma_changed_membership(prev, front);
        let f = changed_entries(prev, upd);
        let ff = changed_entries(prev, front);
        assert forall|k: int| 0 <= k < f.len() implies exists|j: int|
            0 <= j < upd.len() && #[trigger] f[k] == upd[j] by {
            if k < ff.len() {
                let j = choose|j: int| 0 <= j < front.len() && ff[k] == front[j];
                assert(front[j] == upd[j]);
                assert(f[k] == ff[k]);
            } else {
                assert(f[k] == upd[upd.len() - 1]);
            }
        }
    }
}

/// Every changed entry is indeed new or changed relative to `prev`.
proof fn lemma_changed_pred(
    prev: Seq<(Seq<char>, Seq<Seq<char>>)>,
    upd: Seq<(Seq<char>, Seq<Seq<char>>)>,
)
    ensures
        forall|k: int|
            0 <= k < changed_entries(prev, upd).len() ==> entry_changed(
                prev,
                #[trigger] changed_entries(prev, upd)[k],
            ),
    decreases upd.len(),
{
    reveal(Seq::filter);
    if upd.len() > 0 {
        let front = upd.drop_last();
        lemma_changed_pred(prev, front);
        let f = changed_entries(prev, upd);
        let ff = changed_entries(prev, front);
        assert forall|k: int| 0 <= k < f.len() implies entry_changed(prev, #[trigger] f[k]) by {
            if k < ff.len() {
                assert(f[k] == ff[k]);
            }
        }
    }
}

/// A new-or-changed entry of the updated map appears in the changed list.
proof fn lemma_changed_complete(
    prev: Seq<(Seq<char>, Seq<Seq<char>>)>,
    upd: Seq<(Seq<char>, Seq<Seq<char>>)>,
    i: int,
)
    requires
        0 <= i < upd.len(),
        entry_changed(prev, upd[i]),
    ensures
        exists|k: int|
            0 <= k < changed_entries(prev, upd).len() && #[trigger] changed_entries(prev, upd)[k]
                == upd[i],
    decreases upd.len(),
{
    reveal(Seq::filter);
    let front = upd.drop_last();
    let f = changed_entries(prev, upd);
    let ff = changed_entries(prev, front);
    if i == upd.len() - 1 {
        assert(f[f.len() - 1] == upd[i]);
    } else {
        lemma_changed_complete(prev, front, i);
        let k = choose|k: int| 0 <= k < ff.len() && ff[k] == front[i];
        assert(f[k] == ff[k]);
        assert(front[i] == upd[i]);
    }
}

/// Every name of the removed-service list belongs to a previous entry whose
/// name the updated map lacks.
proof fn lemma_removed_services_sound(
    prev: Seq<(Seq<char>, Seq<Seq<char>>)>,
    upd: Seq<(Seq<char>, Seq<Seq<char>>)>,
)
    ensures
        forall|k: int|
            0 <= k < removed_service_keys(prev, upd).len() ==> !map_has_key(
                upd,
                #[trigger] removed_service_keys(prev, upd)[k],
            ),
    decreases prev.len(),
{
    reveal(Seq::filter);
    if prev.len() > 0 {
        let front = prev.drop_last();
        lemma_removed_services_sound(front, upd);
        let f = removed_service_keys(prev, upd);
        let ff = removed_service_keys(front, upd);
        assert forall|k: int| 0 <= k < f.len() implies !map_has_key(upd, #[trigger] f[k]) by {
            if k < ff.len() {
                assert(f[k] == ff[k]);
            } else {
                assert(f[k] == prev[prev.len() - 1].0);
            }
        }
    }
}

/// A previous service name that the updated map lacks appears in the
/// removed-service list.
proof fn lemma_removed_services_complete(
    prev: Seq<(Seq<char>, Seq<Seq<char>>)>,
    upd: Seq<(Seq<char>, Seq<Seq<char>>)>,
    i: int,
)
    requires
        0 <= i < prev.len(),
        !map_has_key(upd, prev[i].0),
    ensures
        removed_service_keys(prev, upd).contains(prev[i].0),
    decreases prev.len(),
{
    reveal(Seq::filter);
    let front = prev.drop_last();
    let f = removed_service_keys(prev, upd);
    let ff = removed_service_keys(front, upd);
    if i == prev.len() - 1 {
        assert(f[f.len() - 1] == prev[i].0);
    } else {
        lemma_removed_services_complete(front, upd, i);
        let k = choose|k: int| 0 <= k < ff.len() && ff[k] == front[i].0;
        assert(f[k] == ff[k]);
        assert(front[i] == prev[i]);
    }
}

/// The mapping from names to id sets that an entry list denotes.
pub open spec fn as_id_map(m: Seq<(Seq<char>, Seq<Seq<char>>)>) -> Map<Seq<char>, Set<Seq<char>>> {
    Map::new(|k: Seq<char>| map_has_key(m, k), |k: Seq<char>| id_set(map_ids(m, k)))
}

/// A difference applied to a previous mapping: the removed names leave, and
/// the changed entries overwrite or extend what remains.
pub open spec fn apply_diff(
    prev: Map<Seq<char>, Set<Seq<char>>>,
    changed: Seq<(Seq<char>, Seq<Seq<char>>)>,
    removed: Seq<Seq<char>>,
) -> Map<Seq<char>, Set<Seq<char>>> {
    Map::new(
        |k: Seq<char>|
            (prev.dom().contains(k) && !removed.contains(k)) || map_has_key(changed, k),
        |k: Seq<char>|
            if map_has_key(changed, k) {
                id_set(map_ids(changed, k))
            } else {
                prev[k]
            },
    )
}

/// Applying a changed list and a removed list that are sound and complete
/// for one mapping reconstructs the updated mapping exactly.
proof fn lemma_apply_reconstructs(
    prevm: Seq<(Seq<char>, Seq<Seq<char>>)>,
    updm: Seq<(Seq<char>, Seq<Seq<char>>)>,
    removed: Seq<Seq<char>>,
)
    requires
        forall|i: int, j: int|
            #![trigger prevm[i], prevm[j]]
            0 <= i < j < prevm.len() ==> prevm[i].0 != prevm[j].0,
        forall|i: int, j: int|
            #![trigger updm[i], updm[j]]
            0 <= i < j < updm.len() ==> updm[i].0 != updm[j].0,
        forall|x: Seq<char>| removed.contains(x) ==> !map_has_key(updm, x),
        forall|i: int|
            0 <= i < prevm.len() && !map_has_key(updm, (#[trigger] prevm[i]).0)
                ==> removed.contains(prevm[i].0),
    ensures
        as_id_map(updm) == apply_diff(as_id_map(prevm), changed_entries(prevm, updm), removed),
{
    lemma_changed_membership(prevm, updm);
    lemma_changed_pred(prevm, updm);
    let changed = changed_entries(prevm, updm);
    let lhs = as_id_map(updm);
    let rhs = apply_diff(as_id_map(prevm), changed, removed);
    assert forall|k: Seq<char>| #[trigger] lhs.dom().contains(k) implies rhs.dom().contains(k)
        && lhs[k] == rhs[k] by {
        let ie = key_index(updm, k);
        assert(0 <= ie < updm.len() && updm[ie].0 == k);
        let e = updm[ie];
        if entry_changed(prevm, e) {
            lemma_changed_complete(prevm, updm, ie);
            let kk = choose|kk: int| 0 <= kk < changed.len() && changed[kk] == e;
            assert(map_has_key(changed, k));
            let jc = key_index(changed, k);
            assert(0 <= jc < changed.len() && changed[jc].0 == k);
            let j2 = choose|j: int| 0 <= j < updm.len() && changed[jc] == updm[j];
            assert(updm[j2].0 == k);
            if j2 != ie {
                assert(updm[ie].0 != updm[j2].0);
            }
            assert(changed[jc] == e);
            assert(map_ids(changed, k) == e.1);
            assert(map_ids(updm, k) == e.1);
        } else {
            assert(map_has_key(prevm, e.0) && id_set(map_ids(prevm, e.0)) == id_set(e.1));
            if removed.contains(k) {
                assert(!map_has_key(updm, k));
            }
            if map_has_key(changed, k) {
                let jc = key_index(changed, k);
                assert(0 <= jc < changed.len() && changed[jc].0 == k);
                let j2 = choose|j: int| 0 <= j < updm.len() && changed[jc] == updm[j];
                assert(updm[j2].0 == k);
                if j2 != ie {
                    assert(updm[ie].0 != updm[j2].0);
                }
                assert(changed[jc] == e);
                assert(entry_changed(prevm, changed[jc]));
            }
            assert(as_id_map(prevm).dom().contains(k));
            assert(rhs[k] == id_set(map_ids(prevm, k)));
            assert(map_ids(updm, k) == e.1);
        }
    }
    assert forall|k: Seq<char>| #[trigger] rhs.dom().contains(k) implies lhs.dom().contains(
        k,
    ) by {
        if map_has_key(changed, k) {
            let jc = key_index(changed, k);
            assert(0 <= jc < changed.len() && changed[jc].0 == k);
            let j2 = choose|j: int| 0 <= j < updm.len() && changed[jc] == updm[j];
            assert(updm[j2].0 == k);
            assert(map_has_key(updm, k));
        } else {
            assert(as_id_map(prevm).dom().contains(k) && !removed.contains(k));
            let ip = key_index(prevm, k);
            assert(0 <= ip < prevm.len() && prevm[ip].0 == k);
            if !map_has_key(updm, k) {
                assert(removed.contains(prevm[ip].0));
            }
        }
    }
    assert(lhs =~= rhs);
}

/// Applying the advertised-service part of the returned difference to the
/// previous graph reconstructs the updated graph's advertised services
/// exactly.
pub proof fn lemma_diff_reconstructs_services(prev: ConnectionGraph, upd: ConnectionGraph)
    requires
        prev.wf(),
        upd.wf(),
    ensures
        as_id_map(upd.advertised_services.view_entries()) == apply_diff(
            as_id_map(prev.advertised_services.view_entries()),
            changed_entries(
                prev.advertised_services.view_entries(),
                upd.advertised_services.view_entries(),
            ),
            removed_service_keys(
                prev.advertised_services.view_entries(),
                upd.advertised_services.view_entries(),
            ),
        ),
{
    let pm = prev.advertised_services.view_entries();
    let um = upd.advertised_services.view_entries();
    let removed = removed_service_keys(pm, um);
    lemma_removed_services_sound(pm, um);
    assert forall|x: Seq<char>| removed.contains(x) implies !map_has_key(um, x) by {
        let k = choose|k: int| 0 <= k < removed.len() && removed[k] == x;
        assert(!map_has_key(um, removed[k]));
    }
    assert forall|i: int|
        0 <= i < pm.len() && !map_has_key(um, (#[trigger] pm[i]).0) implies removed.contains(
        pm[i].0,
    ) by {
        lemma_removed_services_complete(pm, um, i);
    }
    lemma_apply_reconstructs(pm, um, removed);
}

/// Every name of the published part of the removed-topic list is absent
/// from both updated topic maps.
proof fn lemma_removed_topics_pub_sound(
    prev_pub: Seq<(Seq<char>, Seq<Seq<char>>)>,
    upd_pub: Seq<(Seq<char>, Seq<Seq<char>>)>,
    upd_sub: Seq<(Seq<char>, Seq<Seq<char>>)>,
)
    ensures
        forall|k: int|
            0 <= k < removed_topics_pub(prev_pub, upd_pub, upd_sub).len() ==> !map_has_key(
                upd_pub,
                #[trigger] removed_topics_pub(prev_pub, upd_pub, upd_sub)[k],
            ) && !map_has_key(upd_sub, removed_topics_pub(prev_pub, upd_pub, upd_sub)[k]),
    decreases prev_pub.len(),
{
    reveal(Seq::filter);
    if prev_pub.len() > 0 {
        let front = prev_pub.drop_last();
        lemma_removed_topics_pub_sound(front, upd_pub, upd_sub);
        let f = removed_topics_pub(prev_pub, upd_pub, upd_sub);
        let ff = removed_topics_pub(front, upd_pub, upd_sub);
        assert forall|k: int| 0 <= k < f.len() implies !map_has_key(upd_pub, #[trigger] f[k])
            && !map_has_key(upd_sub, f[k]) by {
            if k < ff.len() {
                assert(f[k] == ff[k]);
            } else {
                assert(f[k] == prev_pub[prev_pub.len() - 1].0);
            }
        }
    }
}

/// Every name of the subscribed part of the removed-topic list is absent
/// from both updated topic maps.
proof fn lemma_removed_topics_sub_sound(
    prev_pub: Seq<(Seq<char>, Seq<Seq<char>>)>,
    prev_sub: Seq<(Seq<char>, Seq<Seq<char>>)>,
    upd_pub: Seq<(Seq<char>, Seq<Seq<char>>)>,
    upd_sub: Seq<(Seq<char>, Seq<Seq<char>>)>,
)
    ensures
        forall|k: int|
            0 <= k < removed_topics_sub(prev_pub, prev_sub, upd_pub, upd_sub).len()
                ==> !map_has_key(
                upd_pub,
                #[trigger] removed_topics_sub(prev_pub, prev_sub, upd_pub, upd_sub)[k],
            ) && !map_has_key(
                upd_sub,
                removed_topics_sub(prev_pub, prev_sub, upd_pub, upd_sub)[k],
            ),
    decreases prev_sub.len(),
{
    reveal(Seq::filter);
    if prev_sub.len() > 0 {
        let front = prev_sub.drop_last();
        lemma_removed_topics_sub_sound(prev_pub, front, upd_pub, upd_sub);
        let f = removed_topics_sub(prev_pub, prev_sub, upd_pub, upd_sub);
        let ff = removed_topics_sub(prev_pub, front, upd_pub, upd_sub);
        assert forall|k: int| 0 <= k < f.len() implies !map_has_key(upd_pub, #[trigger] f[k])
            && !map_has_key(upd_sub, f[k]) by {
            if k < ff.len() {
                assert(f[k] == ff[k]);
            } else {
                assert(f[k] == prev_sub[prev_sub.len() - 1].0);
            }
        }
    }
}

/// A previously published topic absent from both updated topic maps appears
/// in the published part of the removed-topic list.
proof fn lemma_removed_topics_pub_complete(
    prev_pub: Seq<(Seq<char>, Seq<Seq<char>>)>,
    upd_pub: Seq<(Seq<char>, Seq<Seq<char>>)>,
    upd_sub: Seq<(Seq<char>, Seq<Seq<char>>)>,
    i: int,
)
    requires
        0 <= i < prev_pub.len(),
        !map_has_key(upd_pub, prev_pub[i].0),
        !map_has_key(upd_sub, prev_pub[i].0),
    ensures
        removed_topics_pub(prev_pub, upd_pub, upd_sub).contains(prev_pub[i].0),
    decreases prev_pub.len(),
{
    reveal(Seq::filter);
    let front = prev_pub.drop_last();
    let f = removed_topics_pub(prev_pub, upd_pub, upd_sub);
    let ff = removed_topics_pub(front, upd_pub, upd_sub);
    if i == prev_pub.len() - 1 {
        assert(f[f.len() - 1] == prev_pub[i].0);
    } else {
        lemma_removed_topics_pub_complete(front, upd_pub, upd_sub, i);
        let k = choose|k: int| 0 <= k < ff.len() && ff[k] == front[i].0;
        assert(f[k] == ff[k]);
        assert(front[i] == prev_pub[i]);
    }
}

/// A previously subscribed topic absent from both updated topic maps and
/// from the previous published map appears in the subscribed part of the
/// removed-topic list.
proof fn lemma_removed_topics_sub_complete(
    prev_pub: Seq<(Seq<char>, Seq<Seq<char>>)>,
    prev_sub: Seq<(Seq<char>, Seq<Seq<char>>)>,
    upd_pub: Seq<(Seq<char>, Seq<Seq<char>>)>,
    upd_sub: Seq<(Seq<char>, Seq<Seq<char>>)>,
    i: int,
)
    requires
        0 <= i < prev_sub.len(),
        !map_has_key(upd_pub, prev_sub[i].0),
        !map_has_key(upd_sub, prev_sub[i].0),
        !map_has_key(prev_pub, prev_sub[i].0),
    ensures
        removed_topics_sub(prev_pub, prev_sub, upd_pub, upd_sub).contains(prev_sub[i].0),
    decreases prev_sub.len(),
{
    reveal(Seq::filter);
    let front = prev_sub.drop_last();
    let f = removed_topics_sub(prev_pub, prev_sub, upd_pub, upd_sub);
    let ff = removed_topics_sub(prev_pub, front, upd_pub, upd_sub);
    if i == prev_sub.len() - 1 {
        assert(f[f.len() - 1] == prev_sub[i].0);
    } else {
        lemma_removed_topics_sub_complete(prev_pub, front, upd_pub, upd_sub, i);
        let k = choose|k: int| 0 <= k < ff.len() && ff[k] == front[i].0;
        assert(f[k] == ff[k]);
        assert(front[i] == prev_sub[i]);
    }
}

/// Applying the published-topic part of the returned difference to the
/// previous graph reconstructs the updated graph's published topics
/// exactly. A topic that stops being published while remaining subscribed
/// is not reported by the difference, so such inputs are ruled out.
pub proof fn lemma_diff_reconstructs_published(prev: ConnectionGraph, upd: ConnectionGraph)
    requires
        prev.wf(),
        upd.wf(),
        forall|k: Seq<char>|
            map_has_key(prev.published_topics.view_entries(), k) && !map_has_key(
                upd.published_topics.view_entries(),
                k,
            ) ==> !map_has_key(upd.subscribed_topics.view_entries(), k),
    ensures
        as_id_map(upd.published_topics.view_entries()) == apply_diff(
            as_id_map(prev.published_topics.view_entries()),
            changed_entries(
                prev.published_topics.view_entries(),
                upd.published_topics.view_entries(),
            ),
            removed_topic_keys(
                prev.published_topics.view_entries(),
                prev.subscribed_topics.view_entries(),
                upd.published_topics.view_entries(),
                upd.subscribed_topics.view_entries(),
            ),
        ),
{
    let pp = prev.published_topics.view_entries();
    let ps = prev.subscribed_topics.view_entries();
    let up = upd.published_topics.view_entries();
    let us = upd.subscribed_topics.view_entries();
    let removed = removed_topic_keys(pp, ps, up, us);
    lemma_removed_topics_parts(pp, ps, up, us);
    lemma_removed_topics_pub_sound(pp, up, us);
    lemma_removed_topics_sub_sound(pp, ps, up, us);
    let part1 = removed_topics_pub(pp, up, us);
    let part2 = removed_topics_sub(pp, ps, up, us);
    assert forall|x: Seq<char>| removed.contains(x) implies !map_has_key(up, x) by {
        let k = choose|k: int| 0 <= k < removed.len() && removed[k] == x;
        if k < part1.len() {
            assert(removed[k] == part1[k]);
            assert(!map_has_key(up, part1[k]));
        } else {
            assert(removed[k] == part2[k - part1.len()]);
            assert(!map_has_key(up, part2[k - part1.len()]));
        }
    }
    assert forall|i: int|
        0 <= i < pp.len() && !map_has_key(up, (#[trigger] pp[i]).0) implies removed.contains(
        pp[i].0,
    ) by {
        assert(map_has_key(pp, pp[i].0));
        assert(!map_has_key(us, pp[i].0));
        lemma_removed_topics_pub_complete(pp, up, us, i);
        let k = choose|k: int| 0 <= k < part1.len() && part1[k] == pp[i].0;
        assert(removed[k] == part1[k]);
    }
    lemma_apply_reconstructs(pp, up, removed);
}

/// Applying the subscribed-topic part of the returned difference to the
/// previous graph reconstructs the updated graph's subscribed topics
/// exactly. A topic that loses its subscribers while remaining published is
/// not reported by the difference, so such inputs are ruled out.
pub proof fn lemma_diff_reconstructs_subscribed(prev: ConnectionGraph, upd: ConnectionGraph)
    requires
        prev.wf(),
        upd.wf(),
        forall|k: Seq<char>|
            map_has_key(prev.subscribed_topics.view_entries(), k) && !map_has_key(
                upd.subscribed_topics.view_entries(),
                k,
            ) ==> !map_has_key(upd.published_topics.view_entries(), k),
    ensures
        as_id_map(upd.subscribed_topics.view_entries()) == apply_diff(
            as_id_map(prev.subscribed_topics.view_entries()),
            changed_entries(
                prev.subscribed_topics.view_entries(),
                upd.subscribed_topics.view_entries(),
            ),
            removed_topic_keys(
                prev.published_topics.view_entries(),
                prev.subscribed_topics.view_entries(),
                upd.published_topics.view_entries(),
                upd.subscribed_topics.view_entries(),
            ),
        ),
{
    let pp = prev.published_topics.view_entries();
    let ps = prev.subscribed_topics.view_entries();
    let up = upd.published_topics.view_entries();
    let us = upd.subscribed_topics.view_entries();
    let removed = removed_topic_keys(pp, ps, up, us);
    lemma_removed_topics_parts(pp, ps, up, us);
    lemma_removed_topics_pub_sound(pp, up, us);
    lemma_removed_topics_sub_sound(pp, ps, up, us);
    let part1 = removed_topics_pub(pp, up, us);
    let part2 = removed_topics_sub(pp, ps, up, us);
    assert forall|x: Seq<char>| removed.contains(x) implies !map_has_key(us, x) by {
        let k = choose|k: int| 0 <= k < removed.len() && removed[k] == x;
        if k < part1.len() {
            assert(removed[k] == part1[k]);
            assert(!map_has_key(us, part1[k]));
        } else {
            assert(removed[k] == part2[k - part1.len()]);
            assert(!map_has_key(us, part2[k - part1.len()]));
        }
    }
    assert forall|i: int|
        0 <= i < ps.len() && !map_has_key(us, (#[trigger] ps[i]).0) implies removed.contains(
        ps[i].0,
    ) by {
        assert(map_has_key(ps, ps[i].0));
        assert(!map_has_key(up, ps[i].0));
        if map_has_key(pp, ps[i].0) {
            let j = key_index(pp, ps[i].0);
            assert(0 <= j < pp.len() && pp[j].0 == ps[i].0);
            lemma_removed_topics_pub_complete(pp, up, us, j);
            let k = choose|k: int| 0 <= k < part1.len() && part1[k] == pp[j].0;
            assert(removed[k] == part1[k]);
        } else {
            lemma_removed_topics_sub_complete(pp, ps, up, us, i);
            let k = choose|k: int| 0 <= k < part2.len() && part2[k] == ps[i].0;
            assert(removed[part1.len() + k] == part2[k]);
        }
    }
    lemma_apply_reconstructs(ps, us, removed);
}

} // verus!
