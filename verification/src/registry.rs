use vstd::prelude::*;

use crate::bytes::bytes_clone;
use crate::entry::RegistryEntry;
use crate::key::RegistryKey;
use crate::key::digest_of;
use crate::key::encode_path;
use crate::key::is_digest_text;
use crate::path::CanonicalPath;

verus! {

broadcast use crate::entry::lemma_entry_view;

/// What registering a path does to the relation: bind the derived key
/// to the path's bytes, unless that key is already bound. An existing
/// binding is kept untouched: since the key is a pure hash of the path,
/// it is presumed to already point at the same target, and the registry
/// does not re-verify it.
pub open spec fn register_model(m: Map<Seq<char>, Seq<u8>>, path: Seq<u8>) -> Map<
    Seq<char>,
    Seq<u8>,
> {
    if m.contains_key(digest_of(path)) {
        m
    } else {
        m.insert(digest_of(path), path)
    }
}

/// What looking a key up returns: the bound location, or absence when
/// the key is not bound. Absence is never an error.
pub open spec fn lookup_model(m: Map<Seq<char>, Seq<u8>>, key: Seq<char>) -> Option<Seq<u8>> {
    if m.contains_key(key) {
        Option::Some(m[key])
    } else {
        Option::None
    }
}

/// What unregistering a key does to the relation: drop the binding if
/// there is one; unregistering an unbound key changes nothing.
pub open spec fn unregister_model(m: Map<Seq<char>, Seq<u8>>, key: Seq<char>) -> Map<
    Seq<char>,
    Seq<u8>,
> {
    if m.contains_key(key) {
        m.remove(key)
    } else {
        m
    }
}

/// The relation a sequence of bindings denotes.
spec fn links_map(s: Seq<RegistryEntry>) -> Map<Seq<char>, Seq<u8>>
    decreases s.len(),
{
    if s.len() == 0 {
        Map::empty()
    } else {
        links_map(s.drop_last()).insert(s.last()@.key, s.last()@.path)
    }
}

/// No key appears twice among the bindings.
spec fn distinct_keys(s: Seq<RegistryEntry>) -> bool {
    forall|i: int, j: int|
        0 <= i < j < s.len() ==> (#[trigger] s[i]@.key) != (#[trigger] s[j]@.key)
}

proof fn lemma_links_map_push(s: Seq<RegistryEntry>, e: RegistryEntry)
    ensures
        links_map(s.push(e)) == links_map(s).insert(e@.key, e@.path),
{
    assert(s.push(e).drop_last() =~= s);
    assert(s.push(e).last() == e);
}

proof fn lemma_links_map_contains(s: Seq<RegistryEntry>, k: Seq<char>)
    ensures
        links_map(s).contains_key(k) <==> exists|i: int| 0 <= i < s.len() && (#[trigger] s[i]@.key)
            == k,
    decreases s.len(),
{
    if s.len() > 0 {
        let t = s.drop_last();
        lemma_links_map_contains(t, k);
        if s.last()@.key == k {
            assert(s[s.len() - 1]@.key == k);
        } else {
            if links_map(s).contains_key(k) {
                let i = choose|i: int| 0 <= i < t.len() && (#[trigger] t[i]@.key) == k;
                assert(s[i]@.key == k);
            }
            if exists|i: int| 0 <= i < s.len() && (#[trigger] s[i]@.key) == k {
                let i = choose|i: int| 0 <= i < s.len() && (#[trigger] s[i]@.key) == k;
                assert(i < s.len() - 1);
                assert(t[i]@.key == k);
            }
        }
    }
}

proof fn lemma_links_map_value(s: Seq<RegistryEntry>, i: int)
    requires
        distinct_keys(s),
        0 <= i < s.len(),
    ensures
        links_map(s).contains_key(s[i]@.key),
        links_map(s)[s[i]@.key] == s[i]@.path,
    decreases s.len(),
{
    let t = s.drop_last();
    if i < s.len() - 1 {
        lemma_links_map_value(t, i);
        assert(s[i]@.key != s[s.len() - 1]@.key);
    }
}

proof fn lemma_links_map_len(s: Seq<RegistryEntry>)
    requires
        distinct_keys(s),
    ensures
        links_map(s).len() == s.len(),
        links_map(s).dom().finite(),
    decreases s.len(),
{
    if s.len() > 0 {
        let t = s.drop_last();
        lemma_links_map_len(t);
        lemma_links_map_contains(t, s.last()@.key);
        assert(!links_map(t).contains_key(s.last()@.key));
    }
}

proof fn lemma_links_map_remove(s: Seq<RegistryEntry>, i: int)
    requires
        distinct_keys(s),
        0 <= i < s.len(),
    ensures
        links_map(s.remove(i)) == links_map(s).remove(s[i]@.key),
    decreases s.len(),
{
    let k = s[i]@.key;
    let t = s.drop_last();
    if i == s.len() - 1 {
        assert(s.remove(i) =~= t);
        lemma_links_map_contains(t, k);
        assert(!links_map(t).contains_key(k));
        assert(links_map(t).insert(k, s.last()@.path).remove(k) =~= links_map(t));
    } else {
        lemma_links_map_remove(t, i);
        assert(s.remove(i) =~= t.remove(i).push(s.last()));
        lemma_links_map_push(t.remove(i), s.last());
        assert(s[i]@.key != s.last()@.key);
        assert(links_map(t).remove(k).insert(s.last()@.key, s.last()@.path) =~= links_map(
            t,
        ).insert(s.last()@.key, s.last()@.path).remove(k));
    }
}

/// The registry: a persistent directory of last-known locations. Each
/// binding pairs a key, derived from the canonical path that was
/// registered, with the raw bytes of that path. The persisted form is a
/// state directory holding one symlink per binding, named by the key
/// and pointing at the location; the layer that owns that directory
/// mirrors each operation here onto it.
#[derive(Debug)]
pub struct LinkRegistry {
    links: Vec<RegistryEntry>,
}

impl LinkRegistry {
    /// The relation the registry holds: each key bound to the last
    /// known location of what was registered under it.
    pub closed spec fn contents(self) -> Map<Seq<char>, Seq<u8>> {
        links_map(self.links@)
    }

    /// Well-formed: no key is bound twice.
    pub closed spec fn wf(self) -> bool {
        distinct_keys(self.links@)
    }

    /// Open a registry with no bindings. Establishing the state
    /// directory on disk (idempotently, parents included) is the
    /// owning layer's step; the directory's contents are not examined
    /// until they are read through the operations below.
    pub fn open() -> (r: Self)
        ensures
            r.wf(),
            r.contents() == Map::<Seq<char>, Seq<u8>>::empty(),
    {
        LinkRegistry { links: Vec::new() }
    }

    /// The position of the binding for `key`, if there is one.
    fn find_link(&self, key: &RegistryKey) -> (r: Option<usize>)
        ensures
            match r {
                Option::Some(i) => i < self.links@.len() && self.links@[i as int]@.key == key@,
                Option::None => forall|j: int|
                    0 <= j < self.links@.len() ==> (#[trigger] self.links@[j]@.key) != key@,
            },
    {
        let mut i: usize = 0;
        while i < self.links.len()
            invariant
                i <= self.links@.len(),
                forall|j: int| 0 <= j < i ==> (#[trigger] self.links@[j]@.key) != key@,
            decreases self.links@.len() - i,
        {
            if self.links[i].key() == key {
                return Some(i);
            }
            i += 1;
        }
        None
    }

    /// Register a location.
    ///
    /// Returns the key of the registered location: the digest of the
    /// canonical path, derived without consulting any stored state. If
    /// the key is already bound the call is a no-op that still returns
    /// the key (idempotent registration); nothing distinguishes "newly
    /// created" from "already present".
    pub fn register(&mut self, path: &CanonicalPath) -> (r: RegistryKey)
        requires
            old(self).wf(),
        ensures
            final(self).wf(),
            r@ == digest_of(path@),
            is_digest_text(r@),
            final(self).contents() == register_model(old(self).contents(), path@),
    {
        let key = RegistryKey::new(encode_path(path));
        match self.find_link(&key) {
            Some(_) => {
                proof {
                    lemma_links_map_contains(self.links@, key@);
                }
                key
            },
            None => {
                let entry = RegistryEntry { key: key.clone(), path: bytes_clone(path.bytes()) };
                proof {
                    lemma_links_map_contains(self.links@, key@);
                    lemma_links_map_push(self.links@, entry);
                }
                self.links.push(entry);
                key
            },
        }
    }

    /// Look a key up.
    ///
    /// Returns a snapshot of the binding for `key`, or absence when the
    /// key is not bound; absence is not an error. The returned entry
    /// records the last-known location whether or not anything still
    /// exists there: the registry is a directory of last-known
    /// locations, not a live existence check, and staleness detection
    /// is the caller's own explicit probe on the returned entry.
    pub fn get(&self, key: &RegistryKey) -> (r: Option<RegistryEntry>)
        requires
            self.wf(),
        ensures
            match r {
                Option::Some(e) => e@.key == key@ && lookup_model(self.contents(), key@)
                    == Option::Some(e@.path),
                Option::None => lookup_model(self.contents(), key@) == Option::<Seq<u8>>::None,
            },
    {
        match self.find_link(key) {
            Some(i) => {
                proof {
                    lemma_links_map_value(self.links@, i as int);
                }
                let target = bytes_clone(&self.links[i].path);
                Some(RegistryEntry { key: key.clone(), path: target })
            },
            None => {
                proof {
                    lemma_links_map_contains(self.links@, key@);
                }
                None
            },
        }
    }

    /// Unregister a key.
    ///
    /// If the key is not bound this is a no-op, not a failure, and
    /// returns absence. Otherwise the binding is dropped and the entry
    /// that was removed is returned, with its last-known location,
    /// which may itself be stale.
    pub fn unregister(&mut self, key: &RegistryKey) -> (r: Option<RegistryEntry>)
        requires
            old(self).wf(),
        ensures
            final(self).wf(),
            final(self).contents() == unregister_model(old(self).contents(), key@),
            match r {
                Option::Some(e) => e@.key == key@ && lookup_model(old(self).contents(), key@)
                    == Option::Some(e@.path),
                Option::None => lookup_model(old(self).contents(), key@) == Option::<Seq<u8>>::None,
            },
    {
        match self.find_link(key) {
            Some(i) => {
                proof {
                    lemma_links_map_value(self.links@, i as int);
                    lemma_links_map_remove(self.links@, i as int);
                }
                let target = bytes_clone(&self.links[i].path);
                let entry = RegistryEntry { key: key.clone(), path: target };
                self.links.remove(i);
                Some(entry)
            },
            None => {
                proof {
                    lemma_links_map_contains(self.links@, key@);
                }
                None
            },
        }
    }

    /// Enumerate the registry.
    ///
    /// Returns a snapshot of every binding, one entry per bound key, in
    /// no guaranteed order. In the persisted form this is one pass over
    /// the state directory, and a child that cannot be read as a
    /// symlink is skipped rather than allowed to break the listing of
    /// the valid entries; only failing to read the directory at all is
    /// an error, and that failure arises in the layer that does the
    /// reading.
    pub fn try_iter(&self) -> (r: Vec<RegistryEntry>)
        requires
            self.wf(),
        ensures
            r@.len() == self.contents().len(),
            forall|i: int|
                0 <= i < r@.len() ==> lookup_model(self.contents(), (#[trigger] r@[i])@.key)
                    == Option::Some(r@[i]@.path),
            forall|k: Seq<char>|
                self.contents().contains_key(k) ==> exists|i: int|
                    0 <= i < r@.len() && (#[trigger] r@[i]@.key) == k,
            forall|i: int, j: int|
                0 <= i < j < r@.len() ==> (#[trigger] r@[i]@.key) != (#[trigger] r@[j]@.key),
    {
        let mut out: Vec<RegistryEntry> = Vec::new();
        let mut i: usize = 0;
        while i < self.links.len()
            invariant
                i <= self.links@.len(),
                out@.len() == i,
                forall|j: int| 0 <= j < i ==> (#[trigger] out@[j])@ == self.links@[j]@,
            decreases self.links@.len() - i,
        {
            let link = &self.links[i];
            let entry = RegistryEntry { key: link.key.clone(), path: bytes_clone(&link.path) };
            out.push(entry);
            i += 1;
        }
        proof {
            lemma_links_map_len(self.links@);
            assert forall|i: int| 0 <= i < out@.len() implies lookup_model(
                self.contents(),
                (#[trigger] out@[i])@.key,
            ) == Option::Some(out@[i]@.path) by {
                lemma_links_map_value(self.links@, i);
            }
            assert forall|k: Seq<char>| self.contents().contains_key(k) implies exists|i: int|
                0 <= i < out@.len() && (#[trigger] out@[i]@.key) == k by {
                lemma_links_map_contains(self.links@, k);
                let i = choose|i: int|
                    0 <= i < self.links@.len() && (#[trigger] self.links@[i]@.key) == k;
                assert(out@[i]@.key == k);
            }
        }
        out
    }
}

} // verus!
