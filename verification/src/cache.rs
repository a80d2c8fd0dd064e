//! Response cache: maps a request identifier to the response previously
//! computed for it.
//!
//! Lookups and stores are O(len) over an association vector; the abstract
//! content is a [`Map`] from identifier to response model. The cache has no
//! eviction policy: unbounded growth is an accepted limitation of this core.

use vstd::prelude::*;

use crate::models::{InferenceResponse, ResponseModel};

verus! {

/// In-memory cache of inference responses, keyed by request identifier.
pub struct Cache {
    entries: Vec<(String, InferenceResponse)>,
}

impl View for Cache {
    type V = Map<Seq<char>, ResponseModel>;

    closed spec fn view(&self) -> Map<Seq<char>, ResponseModel> {
        Self::entries_map(self.entries.deep_view())
    }
}

impl Cache {
    /// The map an association sequence denotes; later entries win, matching
    /// the last-writer-wins discipline of `set`.
    pub closed spec fn entries_map(s: Seq<(Seq<char>, ResponseModel)>) -> Map<
        Seq<char>,
        ResponseModel,
    >
        decreases s.len(),
    {
        if s.len() == 0 {
            Map::empty()
        } else {
            Self::entries_map(s.drop_last()).insert(s.last().0, s.last().1)
        }
    }

    /// No identifier occurs twice in the association vector, so a single
    /// match decides a lookup.
    closed spec fn keys_unique(s: Seq<(Seq<char>, ResponseModel)>) -> bool {
        forall|i: int, j: int| 0 <= i < j < s.len() ==> s[i].0 != s[j].0
    }

    /// Internal consistency of the cache representation.
    pub closed spec fn wf(&self) -> bool {
        Self::keys_unique(self.entries.deep_view())
    }

    proof fn lemma_entries_map_lookup(s: Seq<(Seq<char>, ResponseModel)>, i: int)
        requires
            Self::keys_unique(s),
            0 <= i < s.len(),
        ensures
            Self::entries_map(s).contains_key(s[i].0),
            Self::entries_map(s)[s[i].0] == s[i].1,
        decreases s.len(),
    {
        if i == s.len() - 1 {
        } else {
            assert(s.drop_last()[i] == s[i]);
            Self::lemma_entries_map_lookup(s.drop_last(), i);
        }
    }

    proof fn lemma_entries_map_dom(s: Seq<(Seq<char>, ResponseModel)>, k: Seq<char>)
        requires
            Self::entries_map(s).contains_key(k),
        ensures
            exists|i: int| 0 <= i < s.len() && #[trigger] s[i].0 == k,
        decreases s.len(),
    {
        if s.len() > 0 && s.last().0 != k {
            Self::lemma_entries_map_dom(s.drop_last(), k);
            let i = choose|i: int| 0 <= i < s.drop_last().len() && #[trigger] s.drop_last()[i].0
                == k;
            assert(s[i].0 == k);
        }
    }

    /// Replacing the entry at `i` with an equal-keyed pair, or appending a
    /// pair whose key is absent, denotes the inserted map.
    proof fn lemma_entries_map_update(
        s: Seq<(Seq<char>, ResponseModel)>,
        i: int,
        v: ResponseModel,
    )
        requires
            Self::keys_unique(s),
            0 <= i < s.len(),
        ensures
            Self::entries_map(s.update(i, (s[i].0, v))) =~= Self::entries_map(s).insert(
                s[i].0,
                v,
            ),
            Self::keys_unique(s.update(i, (s[i].0, v))),
        decreases s.len(),
    {
        let t = s.update(i, (s[i].0, v));
        assert forall|x: int, y: int| 0 <= x < y < t.len() implies t[x].0 != t[y].0 by {
            assert(s[x].0 != s[y].0);
        }
        if i == s.len() - 1 {
            assert(t.drop_last() =~= s.drop_last());
        } else {
            assert(t.drop_last() =~= s.drop_last().update(i, (s[i].0, v)));
            assert(s.drop_last()[i] == s[i]);
            Self::lemma_entries_map_update(s.drop_last(), i, v);
            assert(s.last().0 != s[i].0);
            assert(Self::entries_map(t) =~= Self::entries_map(s).insert(s[i].0, v));
        }
    }

    proof fn lemma_entries_map_push(s: Seq<(Seq<char>, ResponseModel)>, k: Seq<char>, v: ResponseModel)
        requires
            Self::keys_unique(s),
            forall|i: int| 0 <= i < s.len() ==> #[trigger] s[i].0 != k,
        ensures
            Self::entries_map(s.push((k, v))) =~= Self::entries_map(s).insert(k, v),
            Self::keys_unique(s.push((k, v))),
    {
        assert(s.push((k, v)).drop_last() =~= s);
    }

    /// An empty cache: no identifier has a stored response.
    pub fn new() -> (r: Self)
        ensures
            r.wf(),
            r@ == Map::<Seq<char>, ResponseModel>::empty(),
    {
        let r = Self { entries: Vec::new() };
        proof {
            assert(r.entries.deep_view() =~= Seq::<(Seq<char>, ResponseModel)>::empty());
        }
        r
    }

    /// Looks up the response stored for `request_id`: exactly the stored
    /// response when the identifier is present, absent otherwise.
    pub fn get(&self, request_id: &str) -> (r: Option<InferenceResponse>)
        requires
            self.wf(),
        ensures
            match r {
                Some(resp) => self@.contains_key(request_id@) && resp@ == self@[request_id@],
                None => !self@.contains_key(request_id@),
            },
    {
        let key: String = request_id.to_owned();
        let ghost s = self.entries.deep_view();
        let mut i: usize = 0;
        while i < self.entries.len()
            invariant
                self.wf(),
                s == self.entries.deep_view(),
                i <= self.entries.len(),
                key@ == request_id@,
                forall|j: int| 0 <= j < i ==> #[trigger] s[j].0 != request_id@,
            decreases self.entries.len() - i,
        {
            if self.entries[i].0 == key {
                let resp = self.entries[i].1.clone();
                proof {
                    Self::lemma_entries_map_lookup(s, i as int);
                }
                return Some(resp);
            }
            i = i + 1;
        }
        proof {
            if self@.contains_key(request_id@) {
                Self::lemma_entries_map_dom(s, request_id@);
            }
        }
        None
    }

    /// Stores `response` for `request_id`, replacing any earlier entry for
    /// the same identifier: last writer wins.
    pub fn set(&mut self, request_id: String, response: InferenceResponse)
        requires
            old(self).wf(),
        ensures
            final(self).wf(),
            final(self)@ == old(self)@.insert(request_id@, response@),
    {
        let ghost s = self.entries.deep_view();
        let mut i: usize = 0;
        while i < self.entries.len()
            invariant
                self.wf(),
                s == self.entries.deep_view(),
                old(self)@ == Self::entries_map(s),
                i <= self.entries.len(),
                forall|j: int| 0 <= j < i ==> #[trigger] s[j].0 != request_id@,
            decreases self.entries.len() - i,
        {
            if self.entries[i].0 == request_id {
                self.entries.set(i, (request_id, response));
                proof {
                    assert(self.entries.deep_view() =~= s.update(
                        i as int,
                        (s[i as int].0, response@),
                    ));
                    Self::lemma_entries_map_update(s, i as int, response@);
                }
                return ;
            }
            i = i + 1;
        }
        self.entries.push((request_id, response));
        proof {
            assert(self.entries.deep_view() =~= s.push((request_id@, response@)));
            Self::lemma_entries_map_push(s, request_id@, response@);
        }
    }
}

/// A lookup directly after a store for the same identifier yields exactly the
/// stored response, and leaves every other identifier's entry untouched.
pub proof fn lemma_cache_round_trip(
    m: Map<Seq<char>, ResponseModel>,
    id: Seq<char>,
    resp: ResponseModel,
)
    ensures
        m.insert(id, resp).contains_key(id),
        m.insert(id, resp)[id] == resp,
        forall|k: Seq<char>|
            k != id ==> (m.insert(id, resp).contains_key(k) <==> m.contains_key(k)),
        forall|k: Seq<char>|
            k != id && m.contains_key(k) ==> m.insert(id, resp)[k] == m[k],
{
}

} // verus!
