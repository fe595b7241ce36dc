//! The registry: allow-listed users with their download counters, each with a
//! single-slot pending URL. In-memory state is authoritative; persistence is a
//! snapshot codec (see the snapshot module).
use vstd::prelude::*;
use vstd::pervasive::VecAdditionalExecFns;

verus! {

/// Download counters of one user.
#[derive(Clone, Copy, PartialEq, Eq, Structural, Debug)]
pub struct Downloads {
    pub videos: u64,
    pub audios: u64,
}

/// One allow-listed user: display alias (UTF-8 bytes), counters, and the
/// single pending-URL slot. The slot is transient and never persisted.
pub struct UserData {
    pub alias: Vec<u8>,
    pub downloads: Downloads,
    pub url: Option<String>,
}

/// The mathematical value of a `UserData`.
pub struct UserDataV {
    pub alias: Seq<u8>,
    pub downloads: Downloads,
    pub url: Option<Seq<char>>,
}

impl View for UserData {
    type V = UserDataV;

    open spec fn view(&self) -> UserDataV {
        UserDataV {
            alias: self.alias@,
            downloads: self.downloads,
            url: match self.url {
                Some(ref u) => Some(u@),
                None => None,
            },
        }
    }
}

impl UserData {
    /// A fresh record for a newly allowed user: zero counters, empty slot.
    pub fn aliased(alias: Vec<u8>) -> (r: UserData)
        ensures
            r@ == (UserDataV {
                alias: alias@,
                downloads: Downloads { videos: 0, audios: 0 },
                url: None,
            }),
    {
        UserData { alias, downloads: Downloads { videos: 0, audios: 0 }, url: None }
    }
}

/// The registry's mathematical value: `(id, record)` pairs in insertion order.
pub type RegView = Seq<(u64, UserDataV)>;

/// Whether some record carries `id`.
pub open spec fn v_contains(v: RegView, id: u64) -> bool {
    exists|i: int| 0 <= i < v.len() && (#[trigger] v[i]).0 == id
}

/// The index of the record carrying `id`; meaningful when `wf_v` holds and
/// the id is present.
pub open spec fn v_idx(v: RegView, id: u64) -> int {
    choose|i: int| 0 <= i < v.len() && (#[trigger] v[i]).0 == id
}

/// The record carrying `id`; meaningful when `wf_v` holds and it is present.
pub open spec fn v_data(v: RegView, id: u64) -> UserDataV {
    v[v_idx(v, id)].1
}

/// The registry invariant: at most one record per id.
pub open spec fn wf_v(v: RegView) -> bool {
    forall|i: int, j: int|
        0 <= i < j < v.len() ==> (#[trigger] v[i]).0 != (#[trigger] v[j]).0
}

/// `d` with its pending slot replaced.
pub open spec fn v_with_url(d: UserDataV, url: Option<Seq<char>>) -> UserDataV {
    UserDataV { url, ..d }
}

/// The registry after the pending slot of `id` (present) is set to `url`.
pub open spec fn v_set_pending(v: RegView, id: u64, url: Seq<char>) -> RegView {
    v.update(v_idx(v, id), (id, v_with_url(v_data(v, id), Some(url))))
}

/// The registry after the pending slot of `id` (present) is emptied.
pub open spec fn v_clear_pending(v: RegView, id: u64) -> RegView {
    v.update(v_idx(v, id), (id, v_with_url(v_data(v, id), None)))
}

/// `d` after one confirmed download of the given kind.
pub open spec fn v_bump(d: UserDataV, is_audio: bool) -> UserDataV {
    UserDataV {
        downloads: if is_audio {
            Downloads { videos: d.downloads.videos, audios: (d.downloads.audios + 1) as u64 }
        } else {
            Downloads { videos: (d.downloads.videos + 1) as u64, audios: d.downloads.audios }
        },
        ..d
    }
}

/// The registry after a confirmed download for `id` (present).
pub open spec fn v_record(v: RegView, id: u64, is_audio: bool) -> RegView {
    v.update(v_idx(v, id), (id, v_bump(v_data(v, id), is_audio)))
}

/// Under `wf_v`, an index holding `id` is the only one.
pub proof fn lemma_v_idx(v: RegView, id: u64, i: int)
    requires
        wf_v(v),
        0 <= i < v.len(),
        v[i].0 == id,
    ensures
        v_contains(v, id),
        v_idx(v, id) == i,
{
    assert(v_contains(v, id));
    let j = v_idx(v, id);
    assert(0 <= j < v.len() && v[j].0 == id);
    if j < i {
        assert(v[j].0 != v[i].0);
    } else if i < j {
        assert(v[i].0 != v[j].0);
    }
}

/// What replacing the record of a present `id` does to the registry:
/// well-formedness, presence and every other record are kept, and the new
/// record is read back exactly.
pub proof fn lemma_update_at(v: RegView, id: u64, d: UserDataV)
    requires
        wf_v(v),
        v_contains(v, id),
    ensures
        ({
            let w = v.update(v_idx(v, id), (id, d));
            &&& wf_v(w)
            &&& w.len() == v.len()
            &&& v_contains(w, id)
            &&& v_idx(w, id) == v_idx(v, id)
            &&& v_data(w, id) == d
            &&& forall|id2: u64| v_contains(w, id2) == v_contains(v, id2)
            &&& forall|id2: u64|
                id2 != id && v_contains(v, id2) ==> v_data(w, id2) == v_data(v, id2)
        }),
{
    let i = v_idx(v, id);
    assert(0 <= i < v.len() && v[i].0 == id);
    let w = v.update(i, (id, d));
    assert forall|a: int, b: int| 0 <= a < b < w.len() implies w[a].0 != w[b].0 by {
        assert(v[a].0 != v[b].0);
    }
    lemma_v_idx(w, id, i);
    assert forall|id2: u64| v_contains(w, id2) == v_contains(v, id2) by {
        if v_contains(v, id2) {
            let k = v_idx(v, id2);
            assert(0 <= k < v.len() && v[k].0 == id2);
            assert(w[k].0 == id2);
            assert(v_contains(w, id2));
        }
        if v_contains(w, id2) {
            let k = v_idx(w, id2);
            assert(0 <= k < w.len() && w[k].0 == id2);
            assert(v[k].0 == id2 || k == i);
            if k == i {
                assert(v[i].0 == id2);
            }
            assert(v_contains(v, id2));
        }
    }
    assert forall|id2: u64| id2 != id && v_contains(v, id2) implies v_data(w, id2) == v_data(
        v,
        id2,
    ) by {
        let k = v_idx(v, id2);
        assert(0 <= k < v.len() && v[k].0 == id2);
        assert(k != i);
        assert(w[k].0 == id2);
        lemma_v_idx(w, id2, k);
    }
}

/// What removing the record of a present `id` does to the registry: the id is
/// gone, and every other record is kept.
pub proof fn lemma_remove_at(v: RegView, id: u64)
    requires
        wf_v(v),
        v_contains(v, id),
    ensures
        ({
            let w = v.remove(v_idx(v, id));
            &&& wf_v(w)
            &&& w.len() == v.len() - 1
            &&& !v_contains(w, id)
            &&& forall|id2: u64| id2 != id ==> v_contains(w, id2) == v_contains(v, id2)
            &&& forall|id2: u64|
                id2 != id && v_contains(v, id2) ==> v_data(w, id2) == v_data(v, id2)
        }),
{
    let i = v_idx(v, id);
    assert(0 <= i < v.len() && v[i].0 == id);
    let w = v.remove(i);
    assert forall|a: int, b: int| 0 <= a < b < w.len() implies w[a].0 != w[b].0 by {
        let a2 = if a < i { a } else { a + 1 };
        let b2 = if b < i { b } else { b + 1 };
        assert(w[a] == v[a2]);
        assert(w[b] == v[b2]);
        assert(v[a2].0 != v[b2].0);
    }
    assert forall|k: int| 0 <= k < w.len() implies w[k].0 != id by {
        let k2 = if k < i { k } else { k + 1 };
        assert(w[k] == v[k2]);
        if k2 != i {
            assert(v[k2].0 != v[i].0);
        }
    }
    assert forall|id2: u64| id2 != id implies v_contains(w, id2) == v_contains(v, id2) by {
        if v_contains(v, id2) {
            let k = v_idx(v, id2);
            assert(0 <= k < v.len() && v[k].0 == id2);
            assert(k != i);
            let k2 = if k < i { k } else { k - 1 };
            assert(w[k2] == v[k]);
            assert(v_contains(w, id2));
        }
        if v_contains(w, id2) {
            let k = v_idx(w, id2);
            assert(0 <= k < w.len() && w[k].0 == id2);
            let k2 = if k < i { k } else { k + 1 };
            assert(w[k] == v[k2]);
            assert(v_contains(v, id2));
        }
    }
    assert forall|id2: u64| id2 != id && v_contains(v, id2) implies v_data(w, id2) == v_data(
        v,
        id2,
    ) by {
        let k = v_idx(v, id2);
        assert(0 <= k < v.len() && v[k].0 == id2);
        assert(k != i);
        let k2 = if k < i { k } else { k - 1 };
        assert(w[k2] == v[k]);
        lemma_v_idx(w, id2, k2);
    }
}

/// The registry: the allow-listed user records in insertion order.
pub struct DB {
    pub users: Vec<(u64, UserData)>,
}

impl View for DB {
    type V = RegView;

    open spec fn view(&self) -> RegView {
        self.users@.map_values(|p: (u64, UserData)| (p.0, p.1@))
    }
}

impl DB {
    /// The registry invariant: at most one record per id.
    pub open spec fn wf(&self) -> bool {
        wf_v(self@)
    }

    /// An empty registry.
    pub fn new() -> (r: DB)
        ensures
            r@ =~= Seq::<(u64, UserDataV)>::empty(),
            r.wf(),
    {
        let r = DB { users: Vec::new() };
        proof {
            assert(r@.len() == 0);
        }
        r
    }

    /// The position of `id`, if any record carries it.
    fn find_index(&self, id: u64) -> (r: Option<usize>)
        ensures
            match r {
                Some(i) => i < self@.len() && self@[i as int].0 == id,
                None => !v_contains(self@, id),
            },
    {
        let mut i: usize = 0;
        while i < self.users.len()
            invariant
                i <= self.users.len(),
                self@.len() == self.users@.len(),
                forall|k: int| 0 <= k < i ==> (#[trigger] self@[k]).0 != id,
            decreases self.users.len() - i,
        {
            if self.users[i].0 == id {
                return Some(i);
            }
            i += 1;
        }
        None
    }

    /// Whether `id` is allow-listed.
    pub fn contains(&self, id: u64) -> (r: bool)
        ensures
            r == v_contains(self@, id),
    {
        self.find_index(id).is_some()
    }

    /// Appends a fresh record for `id`. Callers check absence first.
    pub fn add(&mut self, id: u64, alias: Vec<u8>)
        requires
            old(self).wf(),
            !v_contains(old(self)@, id),
        ensures
            final(self)@ == old(self)@.push(
                (id, UserDataV {
                    alias: alias@,
                    downloads: Downloads { videos: 0, audios: 0 },
                    url: None,
                }),
            ),
            final(self).wf(),
            v_contains(final(self)@, id),
            v_data(final(self)@, id) == (UserDataV {
                alias: alias@,
                downloads: Downloads { videos: 0, audios: 0 },
                url: None,
            }),
            forall|id2: u64|
                id2 != id ==> v_contains(final(self)@, id2) == v_contains(old(self)@, id2),
            forall|id2: u64|
                id2 != id && v_contains(old(self)@, id2) ==> v_data(final(self)@, id2) == v_data(
                    old(self)@,
                    id2,
                ),
    {
        let ghost v0 = self@;
        let data = UserData::aliased(alias);
        let ghost dv = data@;
        self.users.push((id, data));
        proof {
            assert(final(self)@ =~= v0.push((id, dv)));
            let w = final(self)@;
            assert forall|a: int, b: int| 0 <= a < b < w.len() implies w[a].0 != w[b].0 by {
                if b < v0.len() {
                    assert(v0[a].0 != v0[b].0);
                } else {
                    assert(w[b].0 == id);
                    assert(0 <= a < v0.len() && v0[a].0 != id);
                }
            }
            lemma_v_idx(w, id, v0.len() as int);
            assert forall|id2: u64| id2 != id implies v_contains(w, id2) == v_contains(
                v0,
                id2,
            ) by {
                if v_contains(v0, id2) {
                    let k = v_idx(v0, id2);
                    assert(w[k].0 == id2);
                }
                if v_contains(w, id2) {
                    let k = v_idx(w, id2);
                    assert(0 <= k < w.len() && w[k].0 == id2);
                    assert(k < v0.len());
                }
            }
            assert forall|id2: u64| id2 != id && v_contains(v0, id2) implies v_data(w, id2)
                == v_data(v0, id2) by {
                let k = v_idx(v0, id2);
                assert(0 <= k < v0.len() && v0[k].0 == id2);
                assert(w[k].0 == id2);
                lemma_v_idx(w, id2, k);
            }
        }
    }

    /// Deletes the record of `id`. Callers check presence first.
    pub fn remove(&mut self, id: u64)
        requires
            old(self).wf(),
            v_contains(old(self)@, id),
        ensures
            final(self)@ == old(self)@.remove(v_idx(old(self)@, id)),
            final(self).wf(),
            !v_contains(final(self)@, id),
            forall|id2: u64|
                id2 != id ==> v_contains(final(self)@, id2) == v_contains(old(self)@, id2),
            forall|id2: u64|
                id2 != id && v_contains(old(self)@, id2) ==> v_data(final(self)@, id2) == v_data(
                    old(self)@,
                    id2,
                ),
    {
        let ghost v0 = self@;
        let i = match self.find_index(id) {
            Some(i) => i,
            None => {
                proof {
                    assert(false);
                }
                0
            },
        };
        proof {
            lemma_v_idx(v0, id, i as int);
            lemma_remove_at(v0, id);
        }
        self.users.remove(i);
        proof {
            assert(final(self)@ =~= v0.remove(i as int));
        }
    }

    /// Bumps the matching counter of `id` after one confirmed download of the
    /// given kind; absent ids are left untouched.
    pub fn record_download(&mut self, id: u64, is_audio: bool)
        requires
            old(self).wf(),
            v_contains(old(self)@, id) ==> (if is_audio {
                v_data(old(self)@, id).downloads.audios < u64::MAX
            } else {
                v_data(old(self)@, id).downloads.videos < u64::MAX
            }),
        ensures
            final(self).wf(),
            !v_contains(old(self)@, id) ==> final(self)@ == old(self)@,
            v_contains(old(self)@, id) ==> final(self)@ == v_record(old(self)@, id, is_audio),
    {
        let ghost v0 = self@;
        let i = match self.find_index(id) {
            Some(i) => i,
            None => {
                return ;
            },
        };
        proof {
            lemma_v_idx(v0, id, i as int);
            lemma_update_at(v0, id, v_bump(v_data(v0, id), is_audio));
        }
        let mut tmp: (u64, UserData) = (0, UserData::aliased(Vec::new()));
        self.users.set_and_swap(i, &mut tmp);
        if is_audio {
            tmp.1.downloads.audios = tmp.1.downloads.audios + 1;
        } else {
            tmp.1.downloads.videos = tmp.1.downloads.videos + 1;
        }
        self.users.set(i, tmp);
        proof {
            assert(final(self)@ =~= v_record(v0, id, is_audio));
        }
    }

    /// Overwrites the pending slot of `id` with `url`; a prior unresolved URL
    /// is silently discarded. Absent ids are left untouched.
    pub fn set_pending(&mut self, id: u64, url: String)
        requires
            old(self).wf(),
        ensures
            final(self).wf(),
            !v_contains(old(self)@, id) ==> final(self)@ == old(self)@,
            v_contains(old(self)@, id) ==> final(self)@ == v_set_pending(old(self)@, id, url@),
    {
        let ghost v0 = self@;
        let i = match self.find_index(id) {
            Some(i) => i,
            None => {
                return ;
            },
        };
        proof {
            lemma_v_idx(v0, id, i as int);
            lemma_update_at(v0, id, v_with_url(v_data(v0, id), Some(url@)));
        }
        let mut tmp: (u64, UserData) = (0, UserData::aliased(Vec::new()));
        self.users.set_and_swap(i, &mut tmp);
        tmp.1.url = Some(url);
        self.users.set(i, tmp);
        proof {
            assert(final(self)@ =~= v_set_pending(v0, id, url@));
        }
    }

    /// Destructive read of the pending slot of `id`: removes and returns it.
    pub fn take_pending(&mut self, id: u64) -> (r: Option<String>)
        requires
            old(self).wf(),
        ensures
            final(self).wf(),
            !v_contains(old(self)@, id) ==> final(self)@ == old(self)@ && r is None,
            v_contains(old(self)@, id) ==> final(self)@ == v_clear_pending(old(self)@, id)
                && (match r {
                Some(u) => v_data(old(self)@, id).url == Some(u@),
                None => v_data(old(self)@, id).url is None,
            }),
    {
        let ghost v0 = self@;
        let i = match self.find_index(id) {
            Some(i) => i,
            None => {
                return None;
            },
        };
        proof {
            lemma_v_idx(v0, id, i as int);
            lemma_update_at(v0, id, v_with_url(v_data(v0, id), None));
        }
        let mut tmp: (u64, UserData) = (0, UserData::aliased(Vec::new()));
        self.users.set_and_swap(i, &mut tmp);
        let r = tmp.1.url.take();
        self.users.set(i, tmp);
        proof {
            assert(final(self)@ =~= v_clear_pending(v0, id));
        }
        r
    }

    /// All records as `(alias, id, counters)`, in insertion order: a stable,
    /// deterministic listing within a run.
    pub fn list(&self) -> (r: Vec<(Vec<u8>, u64, Downloads)>)
        ensures
            r@.len() == self@.len(),
            forall|k: int|
                0 <= k < self@.len() ==> (#[trigger] r@[k]).0@ == self@[k].1.alias && r@[k].1
                    == self@[k].0 && r@[k].2 == self@[k].1.downloads,
    {
        let mut r: Vec<(Vec<u8>, u64, Downloads)> = Vec::new();
        let mut i: usize = 0;
        while i < self.users.len()
            invariant
                i <= self.users.len(),
                self@.len() == self.users@.len(),
                r@.len() == i,
                forall|k: int|
                    0 <= k < i ==> (#[trigger] r@[k]).0@ == self@[k].1.alias && r@[k].1
                        == self@[k].0 && r@[k].2 == self@[k].1.downloads,
            decreases self.users.len() - i,
        {
            let alias = clone_bytes(&self.users[i].1.alias);
            r.push((alias, self.users[i].0, self.users[i].1.downloads));
            i += 1;
        }
        r
    }

    /// The number of records.
    pub fn len(&self) -> (r: usize)
        ensures
            r == self@.len(),
    {
        self.users.len()
    }
}

/// A byte-for-byte copy of a byte vector.
pub fn clone_bytes(v: &Vec<u8>) -> (r: Vec<u8>)
    ensures
        r@ == v@,
{
    let r = v.clone();
    proof {
        assert forall|i: int| 0 <= i < r@.len() implies r@[i] == v@[i] by {
            assert(vstd::pervasive::cloned::<u8>(v@[i], r@[i]));
        }
        assert(r@ =~= v@);
    }
    r
}

/// Law: setting a pending URL for a known id and then taking it yields that
/// URL exactly once; the slot is empty afterwards, a second take finds
/// nothing, and every other record is untouched.
pub proof fn lemma_pending_taken_once(v: RegView, id: u64, url: Seq<char>)
    requires
        wf_v(v),
        v_contains(v, id),
    ensures
        ({
            let v1 = v_set_pending(v, id, url);
            let v2 = v_clear_pending(v1, id);
            &&& v_data(v1, id).url == Some(url)
            &&& wf_v(v1) && v_contains(v1, id)
            &&& v_data(v2, id).url is None
            &&& wf_v(v2) && v_contains(v2, id)
            &&& forall|id2: u64|
                id2 != id && v_contains(v, id2) ==> v_contains(v2, id2) && v_data(v2, id2)
                    == v_data(v, id2)
        }),
{
    lemma_update_at(v, id, v_with_url(v_data(v, id), Some(url)));
    let v1 = v_set_pending(v, id, url);
    lemma_update_at(v1, id, v_with_url(v_data(v1, id), None));
}

/// Law: overwriting a pending URL discards the earlier one for good: after
/// setting `a` then `b`, the slot holds `b`, and `a` appears in no record it
/// did not already occupy.
pub proof fn lemma_pending_overwrite(v: RegView, id: u64, a: Seq<char>, b: Seq<char>)
    requires
        wf_v(v),
        v_contains(v, id),
    ensures
        ({
            let v2 = v_set_pending(v_set_pending(v, id, a), id, b);
            &&& v_data(v2, id).url == Some(b)
            &&& wf_v(v2) && v_contains(v2, id)
            &&& forall|id2: u64|
                id2 != id && v_contains(v, id2) ==> v_contains(v2, id2) && v_data(v2, id2)
                    == v_data(v, id2)
        }),
{
    lemma_update_at(v, id, v_with_url(v_data(v, id), Some(a)));
    let v1 = v_set_pending(v, id, a);
    lemma_update_at(v1, id, v_with_url(v_data(v1, id), Some(b)));
}

/// Law: a confirmed download bumps exactly the matching counter by one and
/// leaves the other counter, the rest of the record and all other records
/// unchanged; counters never decrease.
pub proof fn lemma_record_download_counts(v: RegView, id: u64, is_audio: bool)
    requires
        wf_v(v),
        v_contains(v, id),
        is_audio ==> v_data(v, id).downloads.audios < u64::MAX,
        !is_audio ==> v_data(v, id).downloads.videos < u64::MAX,
    ensures
        ({
            let d0 = v_data(v, id).downloads;
            let v1 = v_record(v, id, is_audio);
            let d1 = v_data(v1, id).downloads;
            &&& wf_v(v1) && v_contains(v1, id)
            &&& (is_audio ==> d1.audios == d0.audios + 1 && d1.videos == d0.videos)
            &&& (!is_audio ==> d1.videos == d0.videos + 1 && d1.audios == d0.audios)
            &&& d1.videos >= d0.videos && d1.audios >= d0.audios
            &&& v_data(v1, id).alias == v_data(v, id).alias
            &&& v_data(v1, id).url == v_data(v, id).url
            &&& forall|id2: u64|
                id2 != id && v_contains(v, id2) ==> v_contains(v1, id2) && v_data(v1, id2)
                    == v_data(v, id2)
        }),
{
    lemma_update_at(v, id, v_bump(v_data(v, id), is_audio));
}

} // verus!
