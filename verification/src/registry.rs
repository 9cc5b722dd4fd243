use vstd::prelude::*;
use crate::bytes::{bytes_eq, to_vec};
use core::marker::PhantomData;
use crate::crypto::Sha256Base;

verus! {

/// The identity of a WebAssembly module: the digest of its binary.
pub struct ModuleId {
    bytes: Vec<u8>,
}

impl View for ModuleId {
    type V = Seq<u8>;

    closed spec fn view(&self) -> Seq<u8> {
        self.bytes@
    }
}

impl ModuleId {
    /// The identity held in `id`.
    pub fn from_slice(id: &[u8]) -> (m: ModuleId)
        ensures
            m@ == id@,
    {
        ModuleId { bytes: to_vec(id) }
    }

    /// The identity of the module whose binary is `wasm`: its digest under `H`.
    pub fn of_module<H: Sha256Base>(wasm: &[u8]) -> (m: ModuleId)
        ensures
            m@ == H::spec_hash(wasm@),
            m@.len() == H::spec_hash_size(),
    {
        ModuleId { bytes: H::hash(wasm) }
    }

    /// The identity's bytes.
    pub fn as_slice(&self) -> (s: &[u8])
        ensures
            s@ == self@,
    {
        self.bytes.as_slice()
    }
}


/// A bundled WebAssembly module: its identity, its binary and its name.
pub struct WasmEntry {
    pub id: Vec<u8>,
    pub bytes: Vec<u8>,
    pub name: Vec<u8>,
}

impl WasmEntry {
    /// The entry for the module `name` whose binary is `bytes`; its identity is
    /// the digest of the binary under `H`.
    pub fn new<H: Sha256Base>(name: Vec<u8>, bytes: Vec<u8>) -> (e: WasmEntry)
        ensures
            e.id@ == H::spec_hash(bytes@),
            e.bytes@ == bytes@,
            e.name@ == name@,
    {
        let id = ModuleId::of_module::<H>(bytes.as_slice());
        WasmEntry { id: to_vec(id.as_slice()), bytes, name }
    }
}

/// Whether `k` is the first entry whose identity is `id`.
pub open spec fn first_with_id(entries: Seq<WasmEntry>, id: Seq<u8>, k: int) -> bool {
    &&& 0 <= k < entries.len()
    &&& entries[k].id@ == id
    &&& forall|j: int| 0 <= j < k ==> (#[trigger] entries[j]).id@ != id
}

/// Whether `k` is the first entry whose name is `name`.
pub open spec fn first_with_name(entries: Seq<WasmEntry>, name: Seq<u8>, k: int) -> bool {
    &&& 0 <= k < entries.len()
    &&& entries[k].name@ == name
    &&& forall|j: int| 0 <= j < k ==> (#[trigger] entries[j]).name@ != name
}

/// The binary of the first entry whose identity is `id`, if any.
pub open spec fn bytes_for_id(entries: Seq<WasmEntry>, id: Seq<u8>) -> Option<Seq<u8>> {
    if exists|k: int| first_with_id(entries, id, k) {
        Some(entries[choose|k: int| first_with_id(entries, id, k)].bytes@)
    } else {
        None
    }
}

/// The identity of the first entry whose name is `name`, if any.
pub open spec fn id_for_name(entries: Seq<WasmEntry>, name: Seq<u8>) -> Option<Seq<u8>> {
    if exists|k: int| first_with_name(entries, name, k) {
        Some(entries[choose|k: int| first_with_name(entries, name, k)].id@)
    } else {
        None
    }
}

/// There is at most one first entry with a given identity.
pub proof fn lemma_first_with_id_unique(entries: Seq<WasmEntry>, id: Seq<u8>, k1: int, k2: int)
    requires
        first_with_id(entries, id, k1),
        first_with_id(entries, id, k2),
    ensures
        k1 == k2,
{
    if k1 < k2 {
        assert(entries[k1].id@ != id);
    } else if k2 < k1 {
        assert(entries[k2].id@ != id);
    }
}

/// There is at most one first entry with a given name.
pub proof fn lemma_first_with_name_unique(entries: Seq<WasmEntry>, name: Seq<u8>, k1: int, k2: int)
    requires
        first_with_name(entries, name, k1),
        first_with_name(entries, name, k2),
    ensures
        k1 == k2,
{
    if k1 < k2 {
        assert(entries[k1].name@ != name);
    } else if k2 < k1 {
        assert(entries[k2].name@ != name);
    }
}

/// Whether no two entries share an identity.
pub open spec fn ids_distinct(entries: Seq<WasmEntry>) -> bool {
    forall|i: int, j: int|
        0 <= i < j < entries.len() ==> (#[trigger] entries[i]).id@ != (#[trigger] entries[j]).id@
}

/// Whether no two entries share a name.
pub open spec fn names_distinct(entries: Seq<WasmEntry>) -> bool {
    forall|i: int, j: int|
        0 <= i < j < entries.len() ==> (#[trigger] entries[i]).name@ != (#[trigger] entries[j]).name@
}

/// An identity that no entry has finds nothing, and a name that no entry has
/// finds no identity.
pub proof fn lemma_absent_not_found(entries: Seq<WasmEntry>, id: Seq<u8>, name: Seq<u8>)
    ensures
        (forall|k: int| 0 <= k < entries.len() ==> (#[trigger] entries[k]).id@ != id) ==> bytes_for_id(
            entries,
            id,
        ) is None,
        (forall|k: int| 0 <= k < entries.len() ==> (#[trigger] entries[k]).name@ != name)
            ==> id_for_name(entries, name) is None,
{
}

/// In a table whose identities are distinct, every module's binary is found
/// by its identity.
pub proof fn lemma_bytes_found_by_id(entries: Seq<WasmEntry>, k: int)
    requires
        ids_distinct(entries),
        0 <= k < entries.len(),
    ensures
        bytes_for_id(entries, entries[k].id@) == Some(entries[k].bytes@),
{
    let id = entries[k].id@;
    assert forall|j: int| 0 <= j < k implies (#[trigger] entries[j]).id@ != id by {
        assert(entries[j].id@ != entries[k].id@);
    }
    assert(first_with_id(entries, id, k));
    let c = choose|c: int| first_with_id(entries, id, c);
    lemma_first_with_id_unique(entries, id, c, k);
}

/// In a table whose names and identities are distinct, the identity found for
/// a module's name leads back to that module's binary.
pub proof fn lemma_bytes_found_by_name(entries: Seq<WasmEntry>, k: int)
    requires
        ids_distinct(entries),
        names_distinct(entries),
        0 <= k < entries.len(),
    ensures
        id_for_name(entries, entries[k].name@) == Some(entries[k].id@),
        bytes_for_id(entries, entries[k].id@) == Some(entries[k].bytes@),
{
    let name = entries[k].name@;
    assert forall|j: int| 0 <= j < k implies (#[trigger] entries[j]).name@ != name by {
        assert(entries[j].name@ != entries[k].name@);
    }
    assert(first_with_name(entries, name, k));
    let c = choose|c: int| first_with_name(entries, name, c);
    lemma_first_with_name_unique(entries, name, c, k);
    lemma_bytes_found_by_id(entries, k);
}

/// The table of bundled WebAssembly modules.
pub struct WasmTable {
    entries: Vec<WasmEntry>,
}

impl WasmTable {
    /// The entries of the table, in order.
    pub closed spec fn entries(&self) -> Seq<WasmEntry> {
        self.entries@
    }

    /// The table holding `entries`.
    pub fn new(entries: Vec<WasmEntry>) -> (t: WasmTable)
        ensures
            t.entries() == entries@,
    {
        WasmTable { entries }
    }

    /// The binary of the first module whose identity is `id`, if any.
    pub fn bytes_of_id(&self, id: &ModuleId) -> (r: Option<&[u8]>)
        ensures
            r is None <==> bytes_for_id(self.entries(), id@) is None,
            r matches Some(b) ==> bytes_for_id(self.entries(), id@) == Some(b@),
    {
        let id_slice = id.as_slice();
        let mut i: usize = 0;
        while i < self.entries.len()
            invariant
                i <= self.entries@.len(),
                id_slice@ == id@,
                forall|j: int| 0 <= j < i ==> (#[trigger] self.entries@[j]).id@ != id@,
            decreases self.entries@.len() - i,
        {
            if bytes_eq(self.entries[i].id.as_slice(), id_slice) {
                proof {
                    assert(first_with_id(self.entries@, id@, i as int));
                    let k = choose|k: int| first_with_id(self.entries@, id@, k);
                    lemma_first_with_id_unique(self.entries@, id@, k, i as int);
                }
                return Some(self.entries[i].bytes.as_slice());
            }
            i = i + 1;
        }
        proof {
            assert forall|k: int| !first_with_id(self.entries@, id@, k) by {
                if 0 <= k < self.entries@.len() {
                    assert(self.entries@[k].id@ != id@);
                }
            }
        }
        None
    }

    /// The identity of the first module named `key`, if any.
    pub fn module_id_of(&self, key: &[u8]) -> (r: Option<ModuleId>)
        ensures
            r is None <==> id_for_name(self.entries(), key@) is None,
            r matches Some(m) ==> id_for_name(self.entries(), key@) == Some(m@),
    {
        let mut i: usize = 0;
        while i < self.entries.len()
            invariant
                i <= self.entries@.len(),
                forall|j: int| 0 <= j < i ==> (#[trigger] self.entries@[j]).name@ != key@,
            decreases self.entries@.len() - i,
        {
            if bytes_eq(self.entries[i].name.as_slice(), key) {
                proof {
                    assert(first_with_name(self.entries@, key@, i as int));
                    let k = choose|k: int| first_with_name(self.entries@, key@, k);
                    lemma_first_with_name_unique(self.entries@, key@, k, i as int);
                }
                return Some(ModuleId::from_slice(self.entries[i].id.as_slice()));
            }
            i = i + 1;
        }
        proof {
            assert forall|k: int| !first_with_name(self.entries@, key@, k) by {
                if 0 <= k < self.entries@.len() {
                    assert(self.entries@[k].name@ != key@);
                }
            }
        }
        None
    }
}

/// The runtime's view of the bundled modules and of the names it looks for in them.
pub struct Helper<H: Sha256Base> {
    hasher: PhantomData<H>,
}

impl<H: Sha256Base> Helper<H> {
    /// The helper: it carries no data.
    pub closed spec fn spec_new() -> Self {
        Helper { hasher: PhantomData }
    }

    pub fn new() -> (h: Self)
        ensures
            h == Self::spec_new(),
    {
        Helper { hasher: PhantomData }
    }

    /// The function a module is entered by: `main`.
    pub fn entry_func() -> (name: &'static str)
        ensures
            name@ == seq!['m', 'a', 'i', 'n'],
    {
        let name = "main";
        proof {
            reveal_strlit("main");
        }
        name
    }

    /// The memory a module exports: `memory`.
    pub fn entry_memory() -> (name: &'static str)
        ensures
            name@ == seq!['m', 'e', 'm', 'o', 'r', 'y'],
    {
        let name = "memory";
        proof {
            reveal_strlit("memory");
        }
        name
    }

    /// The module the host's functions are imported from: `host`.
    pub fn host_module() -> (name: &'static str)
        ensures
            name@ == seq!['h', 'o', 's', 't'],
    {
        let name = "host";
        proof {
            reveal_strlit("host");
        }
        name
    }

    /// The module that attests the others: `ATTESTATION`.
    pub fn verify_module() -> (name: &'static str)
        ensures
            name@ == seq!['A', 'T', 'T', 'E', 'S', 'T', 'A', 'T', 'I', 'O', 'N'],
    {
        let name = "ATTESTATION";
        proof {
            reveal_strlit("ATTESTATION");
        }
        name
    }

    /// The binary of the bundled module whose identity is `id`, if any.
    pub fn bytes_of_id<'a>(table: &'a WasmTable, id: &ModuleId) -> (r: Option<&'a [u8]>)
        ensures
            r is None <==> bytes_for_id(table.entries(), id@) is None,
            r matches Some(b) ==> bytes_for_id(table.entries(), id@) == Some(b@),
    {
        table.bytes_of_id(id)
    }
}

} // verus!
