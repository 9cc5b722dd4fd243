use vstd::prelude::*;
use core::marker::PhantomData;
use crate::bytes::{bytes_eq, to_vec};
use vstd::string::StringSliceAdditionalSpecFns;
use crate::crypto::{Sha256Base, SignatureBase};
use crate::memory::{LinearMemory, lemma_read_after_write, region_in_bounds, write_region};
use crate::registry::ModuleId;

verus! {

/// The type of a WebAssembly value.
#[derive(Debug, Clone, Copy, PartialEq, Eq, Structural)]
pub enum ValueType {
    I32,
    I64,
    F32,
    F64,
}

/// A WebAssembly value. Floating-point values are carried as their bit patterns.
#[derive(Debug, Clone, Copy, PartialEq, Eq, Structural)]
pub enum Value {
    I32(i32),
    I64(i64),
    F32(u32),
    F64(u64),
}

/// The signature of a host function: its parameter types and its result type.
pub struct HostSignature {
    pub params: Vec<ValueType>,
    pub result: Option<ValueType>,
}

/// A host function that an import resolved to: its index and its signature.
pub struct HostFuncRef {
    pub index: usize,
    pub signature: HostSignature,
}

/// An import the host refused, with its message.
pub struct HostError(pub Vec<u8>);

/// The number of host functions.
pub const HOST_FUNC_COUNT: usize = 5;

/// The message of a refused import: `Export not found`.
pub open spec fn export_not_found_text() -> Seq<u8> {
    seq![69u8, 120u8, 112u8, 111u8, 114u8, 116u8, 32u8, 110u8, 111u8, 116u8, 32u8, 102u8, 111u8, 117u8, 110u8, 100u8]
}

/// The name under which the host exports the function with the given index.
pub open spec fn export_name(index: int) -> Seq<u8> {
    if index == 0 {
        // "copy"
        seq![99u8, 111u8, 112u8, 121u8]
    } else if index == 1 {
        // "get_hash_size"
        seq![103u8, 101u8, 116u8, 95u8, 104u8, 97u8, 115u8, 104u8, 95u8, 115u8, 105u8, 122u8, 101u8]
    } else if index == 2 {
        // "hash"
        seq![104u8, 97u8, 115u8, 104u8]
    } else if index == 3 {
        // "get_signature_size"
        seq![
            103u8, 101u8, 116u8, 95u8, 115u8, 105u8, 103u8, 110u8, 97u8, 116u8, 117u8, 114u8, 101u8, 95u8,
            115u8, 105u8, 122u8, 101u8,
        ]
    } else {
        // "sign"
        seq![115u8, 105u8, 103u8, 110u8]
    }
}

/// The index of the host function exported under `name`, if any.
pub open spec fn export_index(name: Seq<u8>) -> Option<int> {
    if name == export_name(0) {
        Some(0)
    } else if name == export_name(1) {
        Some(1)
    } else if name == export_name(2) {
        Some(2)
    } else if name == export_name(3) {
        Some(3)
    } else if name == export_name(4) {
        Some(4)
    } else {
        None
    }
}

/// Whether the host function with the given index takes three `i32` arguments
/// (a source pointer, a length and a destination pointer); the others take none.
pub open spec fn takes_region(index: int) -> bool {
    index == 0 || index == 2 || index == 4
}

/// The parameter types of the host function with the given index.
pub open spec fn signature_params(index: int) -> Seq<ValueType> {
    if takes_region(index) {
        seq![ValueType::I32, ValueType::I32, ValueType::I32]
    } else {
        seq![]
    }
}

/// The result type of the host function with the given index.
pub open spec fn signature_result(index: int) -> Option<ValueType> {
    if takes_region(index) {
        None
    } else {
        Some(ValueType::I32)
    }
}

/// The `i32` held by `v`, if it holds one.
pub open spec fn as_i32(v: Value) -> i32 {
    match v {
        Value::I32(x) => x,
        _ => 0,
    }
}

/// Whether the first `count` arguments are all `i32`.
pub open spec fn leading_i32_args(args: Seq<Value>, count: int) -> bool {
    count <= args.len() && forall|n: int| 0 <= n < count ==> (#[trigger] args[n]) is I32
}

/// The source pointer of a region call: the first argument, taken as a `u32`.
pub open spec fn source_ptr(args: Seq<Value>) -> int {
    (as_i32(args[0]) as u32) as int
}

/// The length of a region call: the second argument, taken as a `usize`.
pub open spec fn region_len(args: Seq<Value>) -> int {
    (as_i32(args[1]) as usize) as int
}

/// The destination pointer of a region call: the third argument, taken as a `u32`.
pub open spec fn dest_ptr(args: Seq<Value>) -> int {
    (as_i32(args[2]) as u32) as int
}

/// How many bytes the host function with the given index writes at the
/// destination pointer.
pub open spec fn output_len(index: int, args: Seq<Value>, hash_size: nat, signature_size: nat) -> int {
    if index == 0 {
        region_len(args)
    } else if index == 2 {
        hash_size as int
    } else {
        signature_size as int
    }
}

/// Whether a call of the host function with the given index can be carried
/// out: the index names a host function and, for a region call, the arguments
/// are three `i32` whose source and destination regions lie inside the memory.
pub open spec fn invoke_defined(
    index: int,
    args: Seq<Value>,
    mem: Seq<u8>,
    hash_size: nat,
    signature_size: nat,
) -> bool {
    &&& 0 <= index < HOST_FUNC_COUNT
    &&& takes_region(index) ==> {
        &&& leading_i32_args(args, 3)
        &&& region_in_bounds(mem.len(), source_ptr(args), region_len(args))
        &&& region_in_bounds(
            mem.len(),
            dest_ptr(args),
            output_len(index, args, hash_size, signature_size),
        )
    }
}

/// The value the host function with the given index returns.
pub open spec fn invoke_result(index: int, hash_size: nat, signature_size: nat) -> Option<Value> {
    if index == 1 {
        Some(Value::I32(hash_size as i32))
    } else if index == 3 {
        Some(Value::I32(signature_size as i32))
    } else {
        None
    }
}

/// The bytes of the source region of a region call.
pub open spec fn source_bytes(mem: Seq<u8>, args: Seq<Value>) -> Seq<u8> {
    mem.subrange(source_ptr(args), source_ptr(args) + region_len(args))
}

/// The name under which the host exports the function with the given index.
pub fn export_name_of(index: usize) -> (name: Vec<u8>)
    requires
        index < HOST_FUNC_COUNT,
    ensures
        name@ == export_name(index as int),
{
    let name = if index == 0 {
        // "copy"
        vec![99u8, 111u8, 112u8, 121u8]
    } else if index == 1 {
        // "get_hash_size"
        vec![103u8, 101u8, 116u8, 95u8, 104u8, 97u8, 115u8, 104u8, 95u8, 115u8, 105u8, 122u8, 101u8]
    } else if index == 2 {
        // "hash"
        vec![104u8, 97u8, 115u8, 104u8]
    } else if index == 3 {
        // "get_signature_size"
        vec![
            103u8, 101u8, 116u8, 95u8, 115u8, 105u8, 103u8, 110u8, 97u8, 116u8, 117u8, 114u8, 101u8, 95u8,
            115u8, 105u8, 122u8, 101u8,
        ]
    } else {
        // "sign"
        vec![115u8, 105u8, 103u8, 110u8]
    };
    assert(name@ =~= export_name(index as int));
    name
}

/// The index of the host function exported under `name`, if any.
pub fn export_index_of(name: &[u8]) -> (index: Option<usize>)
    ensures
        index is None <==> export_index(name@) is None,
        index matches Some(i) ==> export_index(name@) == Some(i as int),
        index matches Some(i) ==> i < HOST_FUNC_COUNT && name@ == export_name(i as int),
{
    let mut i: usize = 0;
    while i < HOST_FUNC_COUNT
        invariant
            i <= HOST_FUNC_COUNT,
            forall|j: int| 0 <= j < i ==> name@ != export_name(j),
        decreases HOST_FUNC_COUNT - i,
    {
        let candidate = export_name_of(i);
        if bytes_eq(name, candidate.as_slice()) {
            return Some(i);
        }
        i = i + 1;
    }
    None
}

impl HostError {
    /// The error of an import the host does not provide.
    pub fn export_not_found() -> (e: HostError)
        ensures
            e.0@ == export_not_found_text(),
    {
        let message = vec![
            69u8, 120u8, 112u8, 111u8, 114u8, 116u8, 32u8, 110u8, 111u8, 116u8, 32u8, 102u8, 111u8, 117u8,
            110u8, 100u8,
        ];
        assert(message@ =~= export_not_found_text());
        HostError(message)
    }
}

/// Reads argument `n` of a host call, which must be an `i32`.
fn i32_arg(args: &[Value], n: usize) -> (v: i32)
    requires
        n < args@.len(),
        args@[n as int] is I32,
    ensures
        v == as_i32(args@[n as int]),
{
    match args[n] {
        Value::I32(v) => v,
        _ => {
            proof {
                assert(false);
            }
            0
        },
    }
}

/// The host that WebAssembly modules import from: the module's identity, the
/// linear memory it shares with the module, a hash function and a signing scheme.
pub struct HostType<Hash: Sha256Base, Sign: SignatureBase> {
    id: ModuleId,
    memory: LinearMemory,
    hash: PhantomData<Hash>,
    sign: PhantomData<Sign>,
}

impl<Hash: Sha256Base, Sign: SignatureBase> HostType<Hash, Sign> {
    /// The identity of the module the host serves.
    pub closed spec fn module_id(&self) -> Seq<u8> {
        self.id@
    }

    /// The contents of the host's memory.
    pub closed spec fn memory_view(&self) -> Seq<u8> {
        self.memory@
    }

    /// A host for the module `id` over the memory `mem`.
    pub fn new(id: ModuleId, mem: LinearMemory) -> (host: Self)
        ensures
            host.module_id() == id@,
            host.memory_view() == mem@,
    {
        HostType { id, memory: mem, hash: PhantomData, sign: PhantomData }
    }

    /// The identity of the module the host serves.
    pub fn id(&self) -> (id: &ModuleId)
        ensures
            id@ == self.module_id(),
    {
        &self.id
    }

    /// The memory the host shares with the module.
    pub fn get_memory(&self) -> (m: Option<&LinearMemory>)
        ensures
            m matches Some(mem) && mem@ == self.memory_view(),
    {
        Some(&self.memory)
    }

    /// Replaces the memory the host shares with the module.
    pub fn set_memory(&mut self, mem: LinearMemory)
        ensures
            final(self).memory_view() == mem@,
            final(self).module_id() == old(self).module_id(),
    {
        self.memory = mem;
    }

    /// The signature of the host function with the given index.
    pub fn get_signature(&self, index: usize) -> (sig: HostSignature)
        requires
            index < HOST_FUNC_COUNT,
        ensures
            sig.params@ == signature_params(index as int),
            sig.result == signature_result(index as int),
    {
        if index == 0 || index == 2 || index == 4 {
            let params = vec![ValueType::I32, ValueType::I32, ValueType::I32];
            assert(params@ =~= signature_params(index as int));
            HostSignature { params, result: None }
        } else {
            let params: Vec<ValueType> = Vec::new();
            assert(params@ =~= signature_params(index as int));
            HostSignature { params, result: Some(ValueType::I32) }
        }
    }

    /// Resolves an imported function by name to the host function exported
    /// under it; refuses a name the host does not export.
    pub fn resolve_func(&self, field_name: &str) -> (r: Result<HostFuncRef, HostError>)
        ensures
            r is Err <==> export_index(field_name.spec_bytes()) is None,
            r matches Ok(f) ==> {
                &&& export_index(field_name.spec_bytes()) == Some(f.index as int)
                &&& f.signature.params@ == signature_params(f.index as int)
                &&& f.signature.result == signature_result(f.index as int)
            },
            r matches Ok(f) ==> field_name.spec_bytes() == export_name(f.index as int),
            r matches Err(e) ==> e.0@ == export_not_found_text(),
    {
        let index = match export_index_of(field_name.as_bytes()) {
            Some(i) => i,
            None => {
                return Err(HostError::export_not_found());
            },
        };
        let signature = self.get_signature(index);
        Ok(HostFuncRef { index, signature })
    }

    /// Resolves an imported global: the host exports none.
    pub fn resolve_global(&self, field_name: &str) -> (e: HostError)
        ensures
            e.0@ == export_not_found_text(),
    {
        HostError::export_not_found()
    }

    /// Resolves an imported memory: the host exports none.
    pub fn resolve_memory(&self, field_name: &str) -> (e: HostError)
        ensures
            e.0@ == export_not_found_text(),
    {
        HostError::export_not_found()
    }

    /// Resolves an imported table: the host exports none.
    pub fn resolve_table(&self, field_name: &str) -> (e: HostError)
        ensures
            e.0@ == export_not_found_text(),
    {
        HostError::export_not_found()
    }

    /// Calls the host function with the given index on `args`.
    ///
    /// - `copy` (0): copies the source region to the destination pointer.
    /// - `get_hash_size` (1): returns the digest size.
    /// - `hash` (2): writes the digest of the source region at the destination pointer.
    /// - `get_signature_size` (3): returns the signature size.
    /// - `sign` (4): writes a signature of the source region at the destination pointer.
    pub fn invoke_index(&mut self, index: usize, args: &[Value]) -> (r: Option<Value>)
        requires
            invoke_defined(
                index as int,
                args@,
                old(self).memory_view(),
                Hash::spec_hash_size() as nat,
                Sign::spec_signature_size() as nat,
            ),
        ensures
            r == invoke_result(index as int, Hash::spec_hash_size() as nat, Sign::spec_signature_size() as nat),
            final(self).module_id() == old(self).module_id(),
            final(self).memory_view().len() == old(self).memory_view().len(),
            index == 0 ==> final(self).memory_view() == write_region(
                old(self).memory_view(),
                dest_ptr(args@),
                source_bytes(old(self).memory_view(), args@),
            ),
            index == 2 ==> final(self).memory_view() == write_region(
                old(self).memory_view(),
                dest_ptr(args@),
                Hash::spec_hash(source_bytes(old(self).memory_view(), args@)),
            ),
            index == 4 ==> exists|signature: Seq<u8>|
                {
                    &&& signature.len() == Sign::spec_signature_size()
                    &&& Sign::spec_signs(source_bytes(old(self).memory_view(), args@), signature)
                    &&& final(self).memory_view() == write_region(
                        old(self).memory_view(),
                        dest_ptr(args@),
                        signature,
                    )
                },
            !takes_region(index as int) ==> final(self).memory_view() == old(self).memory_view(),
    {
        if index == 1 {
            return Some(Value::I32(Hash::hash_size() as i32));
        }
        if index == 3 {
            return Some(Value::I32(Sign::signature_size() as i32));
        }
        let data_ptr = i32_arg(args, 0) as u32;
        let size = i32_arg(args, 1) as usize;
        let new_ptr = i32_arg(args, 2) as u32;
        let data = match self.memory.get(data_ptr, size) {
            Ok(d) => d,
            Err(_) => {
                proof {
                    assert(false);
                }
                return None;
            },
        };
        let output = if index == 0 {
            data
        } else if index == 2 {
            Hash::hash(data.as_slice())
        } else {
            Sign::sign(data.as_slice())
        };
        let written = self.memory.set(new_ptr, output.as_slice());
        proof {
            assert(written is Ok);
        }
        None
    }
}

/// Gathers what a host is made of: the module's identity and its memory.
pub struct Builder<Hash: Sha256Base, Sign: SignatureBase> {
    id: Option<Vec<u8>>,
    memory: Option<LinearMemory>,
    hash: PhantomData<Hash>,
    sign: PhantomData<Sign>,
}

impl<Hash: Sha256Base, Sign: SignatureBase> Builder<Hash, Sign> {
    /// The identity given so far, if any.
    pub closed spec fn given_id(&self) -> Option<Seq<u8>> {
        match self.id {
            Some(v) => Some(v@),
            None => None,
        }
    }

    /// The memory given so far, if any.
    pub closed spec fn given_memory(&self) -> Option<Seq<u8>> {
        match self.memory {
            Some(m) => Some(m@),
            None => None,
        }
    }

    /// A builder with nothing given.
    pub fn new() -> (b: Self)
        ensures
            b.given_id() is None,
            b.given_memory() is None,
    {
        Builder { id: None, memory: None, hash: PhantomData, sign: PhantomData }
    }

    /// Gives the module's identity.
    pub fn module_id(self, id: &[u8]) -> (b: Self)
        ensures
            b.given_id() == Some(id@),
            b.given_memory() == self.given_memory(),
    {
        Builder { id: Some(to_vec(id)), memory: self.memory, hash: PhantomData, sign: PhantomData }
    }

    /// Gives the module's memory.
    pub fn memory(self, mem: LinearMemory) -> (b: Self)
        ensures
            b.given_id() == self.given_id(),
            b.given_memory() == Some(mem@),
    {
        Builder { id: self.id, memory: Some(mem), hash: PhantomData, sign: PhantomData }
    }

    /// The host made of what was given; an identity not given is empty, and a
    /// memory not given is an empty memory.
    pub fn build(self) -> (host: HostType<Hash, Sign>)
        ensures
            host.module_id() == (match self.given_id() {
                Some(id) => id,
                None => Seq::<u8>::empty(),
            }),
            host.memory_view() == (match self.given_memory() {
                Some(m) => m,
                None => Seq::<u8>::empty(),
            }),
    {
        let id = match self.id {
            Some(v) => ModuleId::from_slice(v.as_slice()),
            None => ModuleId::from_slice(&[]),
        };
        let mem = match self.memory {
            Some(m) => m,
            None => LinearMemory::new(0),
        };
        proof {
            assert(Seq::new(0nat, |i: int| 0u8) =~= Seq::<u8>::empty());
        }
        HostType::new(id, mem)
    }
}

/// Every host function is found again under the name it is exported by: the
/// export names are distinct.
pub proof fn lemma_export_names_resolve(index: int)
    requires
        0 <= index < HOST_FUNC_COUNT,
    ensures
        export_index(export_name(index)) == Some(index),
{
    assert(export_name(0) != export_name(1));
    assert(export_name(0) != export_name(2));
    assert(export_name(0) != export_name(3));
    assert(export_name(0) != export_name(4));
    assert(export_name(1) != export_name(2));
    assert(export_name(1) != export_name(3));
    assert(export_name(1) != export_name(4));
    assert(export_name(2) != export_name(3));
    assert(export_name(2) != export_name(4));
    assert(export_name(3) != export_name(4));
}

/// A host function returns a value exactly when the signature it is resolved
/// with declares a result, and the value has the declared type; it takes the
/// three arguments of a region call exactly when its signature lists three
/// parameters.
pub proof fn lemma_invoke_matches_signature(index: int, hash_size: nat, signature_size: nat)
    requires
        0 <= index < HOST_FUNC_COUNT,
    ensures
        invoke_result(index, hash_size, signature_size) is Some <==> signature_result(index) is Some,
        invoke_result(index, hash_size, signature_size) is Some ==> invoke_result(
            index,
            hash_size,
            signature_size,
        ).unwrap() is I32 && signature_result(index) == Some(ValueType::I32),
        takes_region(index) <==> signature_params(index).len() == 3,
        forall|k: int|
            0 <= k < signature_params(index).len() ==> #[trigger] signature_params(index)[k]
                == ValueType::I32,
{
}

/// After `copy`, reading the destination region gives the bytes of the source
/// region as they were before the call.
pub proof fn lemma_copy_reads_back(mem: Seq<u8>, args: Seq<Value>, hash_size: nat, signature_size: nat)
    requires
        invoke_defined(0, args, mem, hash_size, signature_size),
    ensures
        write_region(mem, dest_ptr(args), source_bytes(mem, args)).subrange(
            dest_ptr(args),
            dest_ptr(args) + region_len(args),
        ) == source_bytes(mem, args),
{
    lemma_read_after_write(mem, dest_ptr(args), source_bytes(mem, args));
}

/// A name resolves only when it is exactly one of the export names, and then
/// to that name's function; any other name, a prefix or extension of an export
/// name among them, resolves to nothing.
pub proof fn lemma_export_index_exact(name: Seq<u8>)
    ensures
        export_index(name) matches Some(i) ==> 0 <= i < HOST_FUNC_COUNT && name == export_name(i),
        export_index(name) is None <==> forall|i: int|
            0 <= i < HOST_FUNC_COUNT ==> name != #[trigger] export_name(i),
{
    if export_index(name) is None {
        assert forall|i: int| 0 <= i < HOST_FUNC_COUNT implies name != #[trigger] export_name(i) by {
            if i == 0 {
            } else if i == 1 {
            } else if i == 2 {
            } else if i == 3 {
            } else {
            }
        }
    } else {
        let i = export_index(name).unwrap();
        assert(name == export_name(i));
    }
}

/// For a region call whose arguments are the `i32` values `src`, `n` and `dst`,
/// with `n >= 0` and both regions inside the memory: the call is admitted, the
/// region taken is exactly `[src, src + n)`, the destination is `dst`, and after
/// `copy` the bytes at `[dst, dst + n)` are the bytes that were at
/// `[src, src + n)`; the memory keeps its length.
pub proof fn lemma_region_call_takes_whole_argument(
    mem: Seq<u8>,
    src: i32,
    n: i32,
    dst: i32,
    hash_size: nat,
    signature_size: nat,
)
    requires
        0 <= src,
        0 <= n,
        0 <= dst,
        src + n <= mem.len(),
        dst + n <= mem.len(),
    ensures
        ({
            let args = seq![Value::I32(src), Value::I32(n), Value::I32(dst)];
            &&& invoke_defined(0, args, mem, hash_size, signature_size)
            &&& source_ptr(args) == src
            &&& region_len(args) == n
            &&& dest_ptr(args) == dst
            &&& source_bytes(mem, args) == mem.subrange(src as int, src + n)
            &&& write_region(mem, dst as int, source_bytes(mem, args)).len() == mem.len()
            &&& write_region(mem, dst as int, source_bytes(mem, args)).subrange(
                dst as int,
                dst + n,
            ) == mem.subrange(src as int, src + n)
        }),
{
    let args = seq![Value::I32(src), Value::I32(n), Value::I32(dst)];
    assert(args[0] == Value::I32(src));
    assert(args[1] == Value::I32(n));
    assert(args[2] == Value::I32(dst));
    assert((src as u32) as int == src as int) by (bit_vector)
        requires
            0 <= src,
    ;
    assert((dst as u32) as int == dst as int) by (bit_vector)
        requires
            0 <= dst,
    ;
    assert((n as usize) as int == n as int) by (bit_vector)
        requires
            0 <= n,
    ;
    assert(leading_i32_args(args, 3));
    lemma_read_after_write(mem, dst as int, source_bytes(mem, args));
}

/// The sizes a module is told are the real ones: `get_hash_size` returns the
/// hash's digest size whatever the signing scheme, and `get_signature_size`
/// returns the number of bytes `sign` writes whatever the hash.
pub proof fn lemma_sizes_reported(hash_size: nat, signature_size: nat, other: nat)
    requires
        hash_size <= i32::MAX,
        signature_size <= i32::MAX,
    ensures
        invoke_result(1, hash_size, signature_size) matches Some(Value::I32(v)) && v as int
            == hash_size,
        invoke_result(3, hash_size, signature_size) matches Some(Value::I32(v)) && v as int
            == signature_size,
        invoke_result(1, hash_size, other) == invoke_result(1, hash_size, signature_size),
        invoke_result(3, other, signature_size) == invoke_result(3, hash_size, signature_size),
{
    assert((hash_size as i32) as int == hash_size as int);
    assert((signature_size as i32) as int == signature_size as int);
}

} // verus!
