//! The SNI transport's decision logic: the per-device memory-mapping cache
//! and the builders for its four memory RPCs' request records.
//!
//! SNI is a plain request/response transport; before any memory RPC for a
//! device, the mapping identifier detected for that device is looked up in
//! the cache, and detected once when absent.  Within a session a device's
//! mapping never changes: the cache is insert-only.

use vstd::prelude::*;

use crate::errors::ClientError;
use vstd::string::StringExecFns;

verus! {

/// The map a list of `(uri, mapping)` entries represents.
pub open spec fn cache_map(entries: Seq<(String, i32)>) -> Map<Seq<char>, i32>
    decreases entries.len(),
{
    if entries.len() == 0 {
        Map::empty()
    } else {
        cache_map(entries.drop_last()).insert(entries.last().0@, entries.last().1)
    }
}

/// The device-URI → mapping-id cache.
#[derive(Debug)]
pub struct MappingCache {
    pub entries: Vec<(String, i32)>,
}

impl MappingCache {
    /// The mapping each cached device URI resolves to.
    pub open spec fn view(&self) -> Map<Seq<char>, i32> {
        cache_map(self.entries@)
    }

    /// Each device URI is cached at most once.
    pub open spec fn wf(&self) -> bool {
        forall|i: int, j: int|
            0 <= i < j < self.entries@.len() ==> self.entries@[i].0@ != self.entries@[j].0@
    }

    pub fn new() -> (r: MappingCache)
        ensures
            r.wf(),
            r.view() == Map::<Seq<char>, i32>::empty(),
    {
        MappingCache { entries: Vec::new() }
    }

    /// The cached mapping of a device, if any.
    pub fn lookup(&self, uri: &String) -> (r: Option<i32>)
        requires
            self.wf(),
        ensures
            match r {
                Some(m) => self.view().contains_key(uri@) && m == self.view()[uri@],
                None => !self.view().contains_key(uri@),
            },
    {
        let mut i: usize = 0;
        while i < self.entries.len()
            invariant
                i <= self.entries@.len(),
                self.wf(),
                forall|j: int| 0 <= j < i ==> self.entries@[j].0@ != uri@,
            decreases self.entries@.len() - i,
        {
            if self.entries[i].0 == *uri {
                proof {
                    lemma_cache_map_found(self.entries@, i as int);
                }
                return Some(self.entries[i].1);
            }
            i = i + 1;
        }
        proof {
            lemma_cache_map_absent(self.entries@, uri@);
        }
        None
    }

    /// Records the mapping detected for a device that was not yet cached.
    /// Every mapping already cached is left exactly as it was: within one
    /// session a device's mapping never changes.
    pub fn record(&mut self, uri: String, mapping: i32)
        requires
            old(self).wf(),
            !old(self).view().contains_key(uri@),
        ensures
            final(self).wf(),
            final(self).view() == old(self).view().insert(uri@, mapping),
            forall|k: Seq<char>|
                old(self).view().contains_key(k) ==> final(self).view().contains_key(k)
                    && final(self).view()[k] == old(self).view()[k],
    {
        proof {
            lemma_cache_map_absent_back(self.entries@, uri@);
        }
        let ghost pre = self.entries@;
        self.entries.push((uri, mapping));
        proof {
            assert(self.entries@.drop_last() =~= pre);
        }
    }
}

/// Every listed URI is a key of the represented map.
proof fn lemma_cache_map_found(entries: Seq<(String, i32)>, i: int)
    requires
        0 <= i < entries.len(),
        forall|a: int, b: int| 0 <= a < b < entries.len() ==> entries[a].0@ != entries[b].0@,
    ensures
        cache_map(entries).contains_key(entries[i].0@),
        cache_map(entries)[entries[i].0@] == entries[i].1,
    decreases entries.len(),
{
    if i + 1 < entries.len() {
        lemma_cache_map_found(entries.drop_last(), i);
    }
}

/// A URI no entry lists is no key of the represented map.
proof fn lemma_cache_map_absent(entries: Seq<(String, i32)>, uri: Seq<char>)
    requires
        forall|j: int| 0 <= j < entries.len() ==> entries[j].0@ != uri,
    ensures
        !cache_map(entries).contains_key(uri),
    decreases entries.len(),
{
    if entries.len() > 0 {
        lemma_cache_map_absent(entries.drop_last(), uri);
    }
}

/// A key of the represented map is listed by some entry.
proof fn lemma_cache_map_absent_back(entries: Seq<(String, i32)>, uri: Seq<char>)
    requires
        !cache_map(entries).contains_key(uri),
    ensures
        forall|j: int| 0 <= j < entries.len() ==> entries[j].0@ != uri,
    decreases entries.len(),
{
    if entries.len() > 0 {
        lemma_cache_map_absent_back(entries.drop_last(), uri);
        assert forall|j: int| 0 <= j < entries.len() implies entries[j].0@ != uri by {
            if j + 1 < entries.len() {
                assert(entries.drop_last()[j] == entries[j]);
            }
        }
    }
}

/// Mapping-cache monotonicity: for a fixed session, recording the mapping
/// of a newly seen device never changes the mapping any other lookup
/// observes, so any two lookups of one device return the same identifier.
pub proof fn lemma_mapping_stable(
    pre: MappingCache,
    post: MappingCache,
    uri: Seq<char>,
    mapping: i32,
)
    requires
        pre.wf(),
        !pre.view().contains_key(uri),
        post.view() == pre.view().insert(uri, mapping),
    ensures
        forall|k: Seq<char>|
            pre.view().contains_key(k) ==> post.view().contains_key(k) && post.view()[k]
                == pre.view()[k],
{
}

/// The memory address space every request uses.
#[derive(Clone, Copy, PartialEq, Eq, Structural, Debug)]
pub enum AddressSpace {
    FxPakPro,
}

/// One region of a vectored read request.
#[derive(Debug)]
pub struct MemReadReq {
    pub request_address: u32,
    pub request_address_space: AddressSpace,
    pub request_memory_mapping: i32,
    pub size: u32,
}

/// One region of a vectored write request.
#[derive(Debug)]
pub struct MemWriteReq {
    pub request_address: u32,
    pub request_address_space: AddressSpace,
    pub request_memory_mapping: i32,
    pub data: Vec<u8>,
}

/// The read-request records of a flat `[addr, size, …]` pair list, in
/// order, each in the FxPakPro space with the device's cached mapping.
pub fn build_read_requests(pairs: &Vec<u32>, mapping: i32) -> (r: Vec<MemReadReq>)
    requires
        pairs@.len() % 2 == 0,
    ensures
        r@.len() == pairs@.len() / 2,
        forall|i: int|
            0 <= i < r@.len() ==> r@[i] == (MemReadReq {
                request_address: pairs@[2 * i],
                request_address_space: AddressSpace::FxPakPro,
                request_memory_mapping: mapping,
                size: pairs@[2 * i + 1],
            }),
{
    let n = pairs.len() / 2;
    let mut r: Vec<MemReadReq> = Vec::new();
    let mut i: usize = 0;
    while i < n
        invariant
            i <= n,
            n == pairs@.len() / 2,
            n <= usize::MAX / 2,
            pairs@.len() % 2 == 0,
            r@.len() == i,
            forall|k: int|
                0 <= k < i ==> r@[k] == (MemReadReq {
                    request_address: pairs@[2 * k],
                    request_address_space: AddressSpace::FxPakPro,
                    request_memory_mapping: mapping,
                    size: pairs@[2 * k + 1],
                }),
        decreases n - i,
    {
        proof {
            assert(2 * i + 1 < pairs@.len());
        }
        r.push(
            MemReadReq {
                request_address: pairs[2 * i],
                request_address_space: AddressSpace::FxPakPro,
                request_memory_mapping: mapping,
                size: pairs[2 * i + 1],
            },
        );
        i = i + 1;
    }
    r
}

/// The write-request records of an address list and its data buffers, in
/// order, each in the FxPakPro space with the device's cached mapping.
pub fn build_write_requests(addrs: &Vec<u32>, data: &Vec<Vec<u8>>, mapping: i32) -> (r: Vec<
    MemWriteReq,
>)
    requires
        addrs@.len() == data@.len(),
    ensures
        r@.len() == addrs@.len(),
        forall|i: int|
            0 <= i < r@.len() ==> r@[i].request_address == addrs@[i]
                && r@[i].request_address_space == AddressSpace::FxPakPro
                && r@[i].request_memory_mapping == mapping && r@[i].data@ == data@[i]@,
{
    let mut r: Vec<MemWriteReq> = Vec::new();
    let mut i: usize = 0;
    while i < addrs.len()
        invariant
            i <= addrs@.len(),
            addrs@.len() == data@.len(),
            r@.len() == i,
            forall|k: int|
                0 <= k < i ==> r@[k].request_address == addrs@[k] && r@[k].request_address_space
                    == AddressSpace::FxPakPro && r@[k].request_memory_mapping == mapping
                    && r@[k].data@ == data@[k]@,
        decreases addrs@.len() - i,
    {
        r.push(
            MemWriteReq {
                request_address: addrs[i],
                request_address_space: AddressSpace::FxPakPro,
                request_memory_mapping: mapping,
                data: crate::strutil::copy_bytes(&data[i]),
            },
        );
        i = i + 1;
    }
    r
}

/// The SNI transport: its endpoint and its mapping cache.
#[derive(Debug)]
pub struct SNIConnection {
    pub uri: String,
    pub mappings: MappingCache,
}

impl SNIConnection {
    pub fn new(uri: &str) -> (r: SNIConnection)
        ensures
            r.uri@ == uri@,
            r.mappings.wf(),
            r.mappings.view() == Map::<Seq<char>, i32>::empty(),
    {
        SNIConnection { uri: String::from_str(uri), mappings: MappingCache::new() }
    }
}

} // verus!
