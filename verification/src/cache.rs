use vstd::prelude::*;

use crate::codec::{hex_decode, spec_hex_decode};
use crate::error::RelayError;
use crate::text::{has_prefix, parse_u64, push_text, spec_parse_u64, str_eq};
use vstd::string::StringSliceAdditionalSpecFns;

verus! {

/// The address of the board slug registry, once it was looked up. It has one
/// owner, which `set` changes in place; handlers that share it hold it
/// behind a lock of their own, so that every reader sees the last `set`.
#[derive(Debug)]
pub struct RegistryCache {
    inner: Option<Vec<u8>>,
}

impl RegistryCache {
    /// What the cache holds.
    pub closed spec fn view_bytes(self) -> Option<Seq<u8>> {
        match self.inner {
            Some(v) => Some(v@),
            None => None,
        }
    }

    pub fn new() -> (r: Self)
        ensures
            r.view_bytes() is None,
    {
        RegistryCache { inner: None }
    }

    pub fn get(&self) -> (r: Option<Vec<u8>>)
        ensures
            self.view_bytes() matches Some(b) ==> r is Some && r->Some_0@ == b,
            self.view_bytes() is None ==> r is None,
    {
        match &self.inner {
            Some(v) => Some(v.clone()),
            None => None,
        }
    }

    pub fn set(&mut self, data: Vec<u8>)
        ensures
            final(self).view_bytes() == Some(data@),
    {
        self.inner = Some(data);
    }
}

impl Default for RegistryCache {
    fn default() -> (r: Self)
        ensures
            r.view_bytes() is None,
    {
        RegistryCache::new()
    }
}

/// The encoded shard lists of the packages whose shards were looked up. Like
/// `RegistryCache`, it has one owner; handlers that share it hold it behind
/// a lock of their own.
#[derive(Debug)]
pub struct ShardsCache {
    entries: Vec<(String, Vec<u8>)>,
}

impl ShardsCache {
    /// What the cache holds, by package id.
    pub closed spec fn view_map(self) -> Map<Seq<char>, Seq<u8>> {
        Map::new(
            |k: Seq<char>| exists|i: int| 0 <= i < self.entries@.len() && self.entries@[i].0@ == k,
            |k: Seq<char>|
                self.entries@[choose|i: int| 0 <= i < self.entries@.len() && self.entries@[i].0@ == k].1@,
        )
    }

    /// No package appears twice.
    pub closed spec fn wf(self) -> bool {
        forall|i: int, j: int|
            0 <= i < j < self.entries@.len() ==> self.entries@[i].0@ != self.entries@[j].0@
    }

    pub fn new() -> (r: Self)
        ensures
            r.wf(),
            r.view_map() == Map::<Seq<char>, Seq<u8>>::empty(),
    {
        let r = ShardsCache { entries: Vec::new() };
        assert(r.view_map() =~= Map::<Seq<char>, Seq<u8>>::empty());
        r
    }

    fn find(&self, package_id: &str) -> (r: Option<usize>)
        ensures
            r matches Some(i) ==> i < self.entries@.len() && self.entries@[i as int].0@
                == package_id@,
            r is None ==> forall|i: int|
                0 <= i < self.entries@.len() ==> self.entries@[i].0@ != package_id@,
    {
        let mut i: usize = 0;
        while i < self.entries.len()
            invariant
                i <= self.entries@.len(),
                forall|j: int| 0 <= j < i ==> self.entries@[j].0@ != package_id@,
            decreases self.entries.len() - i,
        {
            if str_eq(self.entries[i].0.as_str(), package_id) {
                return Some(i);
            }
            i = i + 1;
        }
        None
    }

    pub fn get(&self, package_id: &str) -> (r: Option<Vec<u8>>)
        requires
            self.wf(),
        ensures
            self.view_map().contains_key(package_id@) ==> r is Some && r->Some_0@
                == self.view_map()[package_id@],
            !self.view_map().contains_key(package_id@) ==> r is None,
    {
        match self.find(package_id) {
            Some(i) => {
                let ghost k = package_id@;
                proof {
                    let c = choose|j: int| 0 <= j < self.entries@.len() && self.entries@[j].0@ == k;
                    assert(self.entries@[c].0@ == self.entries@[i as int].0@);
                    if c != i {
                        if c < i {
                            assert(self.entries@[c].0@ != self.entries@[i as int].0@);
                        } else {
                            assert(self.entries@[i as int].0@ != self.entries@[c].0@);
                        }
                    }
                }
                Some(self.entries[i].1.clone())
            },
            None => None,
        }
    }

    pub fn set(&mut self, package_id: String, data: Vec<u8>)
        requires
            old(self).wf(),
        ensures
            final(self).wf(),
            final(self).view_map() == old(self).view_map().insert(package_id@, data@),
    {
        let ghost k = package_id@;
        let ghost d = data@;
        match self.find(package_id.as_str()) {
            Some(i) => {
                let ghost before = self.entries@;
                self.entries.set(i, (package_id, data));
                proof {
                    assert forall|a: int, b: int|
                        0 <= a < b < self.entries@.len() implies self.entries@[a].0@
                        != self.entries@[b].0@ by {
                        if a != i && b != i {
                            assert(self.entries@[a] == before[a]);
                            assert(self.entries@[b] == before[b]);
                        } else if a == i {
                            assert(before[a].0@ == k);
                            assert(self.entries@[b] == before[b]);
                        } else {
                            assert(before[b].0@ == k);
                            assert(self.entries@[a] == before[a]);
                        }
                    }
                    assert(self.view_map() =~= old(self).view_map().insert(k, d)) by {
                        assert forall|key: Seq<char>| #[trigger] self.view_map().contains_key(key)
                            <==> old(self).view_map().insert(k, d).contains_key(key) by {
                            if key == k {
                                assert(self.entries@[i as int].0@ == k);
                            } else if old(self).view_map().contains_key(key) {
                                let w = choose|w: int| 0 <= w < before.len() && before[w].0@ == key;
                                assert(self.entries@[w] == before[w]);
                            } else if self.view_map().contains_key(key) {
                                let w = choose|w: int| 0 <= w < self.entries@.len() && self.entries@[w].0@ == key;
                                assert(self.entries@[w] == before[w]);
                            }
                        }
                        assert forall|key: Seq<char>| #[trigger] self.view_map().contains_key(key)
                            implies self.view_map()[key] == old(self).view_map().insert(k, d)[key] by {
                            let w = choose|w: int| 0 <= w < self.entries@.len() && self.entries@[w].0@ == key;
                            if key == k {
                                if w != i {
                                    assert(before[w].0@ == key);
                                    if w < i {
                                        assert(before[w].0@ != before[i as int].0@);
                                    } else {
                                        assert(before[i as int].0@ != before[w].0@);
                                    }
                                }
                            } else {
                                assert(self.entries@[w] == before[w]);
                                let w0 = choose|w0: int| 0 <= w0 < before.len() && before[w0].0@ == key;
                                if w0 != w {
                                    if w0 < w {
                                        assert(before[w0].0@ != before[w].0@);
                                    } else {
                                        assert(before[w].0@ != before[w0].0@);
                                    }
                                }
                            }
                        }
                    }
                }
            },
            None => {
                let ghost before = self.entries@;
                self.entries.push((package_id, data));
                proof {
                    let n = before.len() as int;
                    assert forall|a: int, b: int|
                        0 <= a < b < self.entries@.len() implies self.entries@[a].0@
                        != self.entries@[b].0@ by {
                        assert(self.entries@[a] == before[a]);
                        if b < n {
                            assert(self.entries@[b] == before[b]);
                        }
                    }
                    assert(self.view_map() =~= old(self).view_map().insert(k, d)) by {
                        assert forall|key: Seq<char>| #[trigger] self.view_map().contains_key(key)
                            <==> old(self).view_map().insert(k, d).contains_key(key) by {
                            if key == k {
                                assert(self.entries@[n].0@ == k);
                            } else if old(self).view_map().contains_key(key) {
                                let w = choose|w: int| 0 <= w < before.len() && before[w].0@ == key;
                                assert(self.entries@[w] == before[w]);
                            } else if self.view_map().contains_key(key) {
                                let w = choose|w: int| 0 <= w < self.entries@.len() && self.entries@[w].0@ == key;
                                if w < n {
                                    assert(self.entries@[w] == before[w]);
                                }
                            }
                        }
                        assert forall|key: Seq<char>| #[trigger] self.view_map().contains_key(key)
                            implies self.view_map()[key] == old(self).view_map().insert(k, d)[key] by {
                            let w = choose|w: int| 0 <= w < self.entries@.len() && self.entries@[w].0@ == key;
                            if key == k {
                                if w < n {
                                    assert(self.entries@[w] == before[w]);
                                }
                            } else {
                                assert(w < n);
                                assert(self.entries@[w] == before[w]);
                                let w0 = choose|w0: int| 0 <= w0 < before.len() && before[w0].0@ == key;
                                if w0 != w {
                                    if w0 < w {
                                        assert(before[w0].0@ != before[w].0@);
                                    } else {
                                        assert(before[w].0@ != before[w0].0@);
                                    }
                                }
                            }
                        }
                    }
                }
            },
        }
    }
}

/// Reading a package's shards after storing them gives them back, and
/// storing leaves the other packages' entries as they were.
pub proof fn lemma_shards_read_after_write(
    before: Map<Seq<char>, Seq<u8>>,
    package: Seq<char>,
    data: Seq<u8>,
    other: Seq<char>,
)
    requires
        other != package,
    ensures
        before.insert(package, data).contains_key(package),
        before.insert(package, data)[package] == data,
        before.insert(package, data).contains_key(other) == before.contains_key(other),
        before.contains_key(other) ==> before.insert(package, data)[other] == before[other],
{
}

/// The nonce shards found so far, by index, in increasing order of index.
#[derive(Debug, Clone)]
pub struct ShardSet {
    entries: Vec<(u64, Vec<u8>)>,
}

impl ShardSet {
    pub closed spec fn view_map(self) -> Map<u64, Seq<u8>> {
        Map::new(
            |k: u64| exists|i: int| 0 <= i < self.entries@.len() && self.entries@[i].0 == k,
            |k: u64| self.entries@[choose|i: int| 0 <= i < self.entries@.len() && self.entries@[i].0 == k].1@,
        )
    }

    /// The indices increase strictly.
    pub closed spec fn wf(self) -> bool {
        forall|i: int, j: int| 0 <= i < j < self.entries@.len() ==> self.entries@[i].0 < self.entries@[j].0
    }

    /// The shards in increasing order of index.
    pub closed spec fn values(self) -> Seq<Seq<u8>> {
        self.entries@.map_values(|e: (u64, Vec<u8>)| e.1@)
    }

    pub fn new() -> (r: Self)
        ensures
            r.wf(),
            r.view_map() == Map::<u64, Seq<u8>>::empty(),
    {
        let r = ShardSet { entries: Vec::new() };
        assert(r.view_map() =~= Map::<u64, Seq<u8>>::empty());
        r
    }

    /// Stores a shard under its index; a later shard of the same index
    /// replaces an earlier one.
    pub fn insert(&mut self, index: u64, data: Vec<u8>)
        requires
            old(self).wf(),
        ensures
            final(self).wf(),
            final(self).view_map() == old(self).view_map().insert(index, data@),
    {
        let ghost before = self.entries@;
        let ghost d = data@;
        let mut i: usize = 0;
        while i < self.entries.len() && self.entries[i].0 < index
            invariant
                i <= self.entries@.len(),
                self.entries@ == before,
                forall|j: int| 0 <= j < i ==> self.entries@[j].0 < index,
            decreases self.entries.len() - i,
        {
            i = i + 1;
        }
        if i < self.entries.len() && self.entries[i].0 == index {
            self.entries.set(i, (index, data));
            proof {
                assert forall|a: int, b: int| 0 <= a < b < self.entries@.len() implies self.entries@[a].0
                    < self.entries@[b].0 by {
                    assert(self.entries@[a].0 == before[a].0);
                    assert(self.entries@[b].0 == before[b].0);
                }
                assert(self.view_map() =~= old(self).view_map().insert(index, d)) by {
                    assert forall|key: u64| #[trigger] self.view_map().contains_key(key)
                        <==> old(self).view_map().insert(index, d).contains_key(key) by {
                        if old(self).view_map().contains_key(key) {
                            let w = choose|w: int| 0 <= w < before.len() && before[w].0 == key;
                            assert(self.entries@[w].0 == before[w].0);
                        }
                        if self.view_map().contains_key(key) {
                            let w = choose|w: int| 0 <= w < self.entries@.len() && self.entries@[w].0 == key;
                            assert(self.entries@[w].0 == before[w].0);
                        }
                        if key == index {
                            assert(self.entries@[i as int].0 == index);
                        }
                    }
                    assert forall|key: u64| #[trigger] self.view_map().contains_key(key)
                        implies self.view_map()[key] == old(self).view_map().insert(index, d)[key] by {
                        let w = choose|w: int| 0 <= w < self.entries@.len() && self.entries@[w].0 == key;
                        if key == index {
                            assert(w == i);
                        } else {
                            assert(w != i);
                            assert(self.entries@[w] == before[w]);
                            let w0 = choose|w0: int| 0 <= w0 < before.len() && before[w0].0 == key;
                            assert(w0 == w);
                        }
                    }
                }
            }
        } else {
            self.entries.insert(i, (index, data));
            proof {
                let n = before.len() as int;
                assert forall|a: int, b: int| 0 <= a < b < self.entries@.len() implies self.entries@[a].0
                    < self.entries@[b].0 by {
                    if a < i && b < i {
                        assert(self.entries@[a] == before[a]);
                        assert(self.entries@[b] == before[b]);
                    } else if a < i && b == i {
                        assert(self.entries@[a] == before[a]);
                    } else if a < i {
                        assert(self.entries@[a] == before[a]);
                        assert(self.entries@[b] == before[b - 1]);
                    } else if a == i {
                        assert(self.entries@[b] == before[b - 1]);
                        assert(before[i as int].0 > index);
                        if b - 1 > i {
                            assert(before[i as int].0 < before[b - 1].0);
                        }
                    } else {
                        assert(self.entries@[a] == before[a - 1]);
                        assert(self.entries@[b] == before[b - 1]);
                    }
                }
                assert(self.view_map() =~= old(self).view_map().insert(index, d)) by {
                    assert forall|key: u64| #[trigger] self.view_map().contains_key(key)
                        <==> old(self).view_map().insert(index, d).contains_key(key) by {
                        if old(self).view_map().contains_key(key) {
                            let w = choose|w: int| 0 <= w < before.len() && before[w].0 == key;
                            if w < i {
                                assert(self.entries@[w] == before[w]);
                            } else {
                                assert(self.entries@[w + 1] == before[w]);
                            }
                        }
                        if self.view_map().contains_key(key) && key != index {
                            let w = choose|w: int| 0 <= w < self.entries@.len() && self.entries@[w].0 == key;
                            if w < i {
                                assert(self.entries@[w] == before[w]);
                            } else if w > i {
                                assert(self.entries@[w] == before[w - 1]);
                            }
                        }
                        if key == index {
                            assert(self.entries@[i as int].0 == index);
                        }
                    }
                    assert forall|key: u64| #[trigger] self.view_map().contains_key(key)
                        implies self.view_map()[key] == old(self).view_map().insert(index, d)[key] by {
                        let w = choose|w: int| 0 <= w < self.entries@.len() && self.entries@[w].0 == key;
                        if key == index {
                            if w < i {
                                assert(self.entries@[w] == before[w]);
                            } else if w > i {
                                assert(self.entries@[w] == before[w - 1]);
                                assert(before[i as int].0 > index);
                                if w - 1 > i {
                                    assert(before[i as int].0 < before[w - 1].0);
                                }
                            }
                        } else {
                            let w0 = choose|w0: int| 0 <= w0 < before.len() && before[w0].0 == key;
                            if w < i {
                                assert(self.entries@[w] == before[w]);
                                assert(w0 == w);
                            } else {
                                assert(w != i);
                                assert(self.entries@[w] == before[w - 1]);
                                assert(w0 == w - 1);
                            }
                        }
                    }
                }
            }
        }
    }

    /// The shards, in increasing order of index.
    pub fn into_values(self) -> (r: Vec<Vec<u8>>)
        ensures
            r@.len() == self.values().len(),
            forall|i: int| 0 <= i < r@.len() ==> (#[trigger] r@[i])@ == self.values()[i],
    {
        let mut out: Vec<Vec<u8>> = Vec::new();
        let mut i: usize = 0;
        while i < self.entries.len()
            invariant
                i <= self.entries@.len(),
                out@.len() == i,
                forall|j: int| 0 <= j < i ==> (#[trigger] out@[j])@ == self.entries@[j].1@,
            decreases self.entries.len() - i,
        {
            out.push(self.entries[i].1.clone());
            i = i + 1;
        }
        out
    }
}

/// Whether a changed object is the board slug registry (its Move type is
/// `forum::BoardSlugRegistry`).
pub fn is_registry_type(module: &str, type_ident: &str) -> (r: bool)
    ensures
        r == (module@ == "forum"@ && type_ident@ == "BoardSlugRegistry"@),
{
    str_eq(module, "forum") && str_eq(type_ident, "BoardSlugRegistry")
}

/// Whether a changed object is a nonce shard (its Move type is
/// `nonce::NonceGateShard`).
pub fn is_shard_type(module: &str, type_ident: &str) -> (r: bool)
    ensures
        r == (module@ == "nonce"@ && type_ident@ == "NonceGateShard"@),
{
    str_eq(module, "nonce") && str_eq(type_ident, "NonceGateShard")
}

/// The index of a shard as the indexer shows it: its text as a number, 0
/// when it is missing or not a number.
pub fn shard_index_of(text: Option<&str>) -> (r: u64)
    ensures
        r == match text {
            Some(t) => match spec_parse_u64(t@) {
                Ok(n) => n,
                Err(_) => 0,
            },
            None => 0,
        },
{
    match text {
        Some(t) => match parse_u64(t) {
            Ok(n) => n,
            Err(_) => 0,
        },
        None => 0,
    }
}

/// The bytes of a text without all its leading `0x` prefixes
/// (`str::trim_start_matches("0x")`).
pub open spec fn strip_hex_prefixes(b: Seq<u8>) -> Seq<u8>
    decreases b.len(),
{
    if b.len() >= 2 && b[0] == 0x30 && b[1] == 0x78 {
        strip_hex_prefixes(b.skip(2))
    } else {
        b
    }
}

/// The bytes of an object address as the indexer writes it (`0x` and
/// hexadecimal digits).
pub fn address_bytes(text: &str) -> (r: Result<Vec<u8>, RelayError>)
    ensures
        spec_hex_decode(strip_hex_prefixes(text.spec_bytes())) matches Some(b) ==> r is Ok
            && r->Ok_0@ == b,
        spec_hex_decode(strip_hex_prefixes(text.spec_bytes())) is None ==> (r matches Err(
            RelayError::GraphqlResponse(m),
        ) && has_prefix(m@, "invalid hex address: "@)),
{
    let b = text.as_bytes();
    let mut i: usize = 0;
    assert(b@.skip(0) =~= b@);
    while b.len() - i >= 2 && b[i] == 0x30 && b[i + 1] == 0x78
        invariant
            b@ == text.spec_bytes(),
            i <= b@.len(),
            strip_hex_prefixes(text.spec_bytes()) == strip_hex_prefixes(b@.skip(i as int)),
        decreases b.len() - i,
    {
        assert(b@.skip(i as int).skip(2) =~= b@.skip(i + 2));
        i = i + 2;
    }
    assert(b@.subrange(i as int, b@.len() as int) =~= b@.skip(i as int));
    match hex_decode(&b[i..b.len()]) {
        Ok(v) => Ok(v),
        Err(e) => {
            let mut m = "invalid hex address: ".to_string();
            let ghost prefix = m@;
            push_text(&mut m, e.as_str());
            assert(m@.take(prefix.len() as int) =~= prefix);
            Err(RelayError::GraphqlResponse(m))
        },
    }
}

} // verus!
