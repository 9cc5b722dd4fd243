use pdcn_common::crypto::{Sha256, SignatureBase};
use pdcn_common::host::{Builder, HostType, Value, ValueType, HOST_FUNC_COUNT};
use pdcn_common::memory::LinearMemory;
use pdcn_common::registry::ModuleId;

/// A signing scheme for the tests: the signature is the first byte of the
/// data repeated four times.
struct RepeatSigner;

impl SignatureBase for RepeatSigner {
    fn spec_signature_size() -> usize {
        4
    }

    // A specification item of the trait; the tests never consult it.
    fn spec_signs(_data: vstd::seq::Seq<u8>, _signature: vstd::seq::Seq<u8>) -> bool {
        true
    }

    fn signature_size() -> usize {
        4
    }

    fn sign(data: &[u8]) -> Vec<u8> {
        let b = if data.is_empty() { 0 } else { data[0] };
        vec![b; 4]
    }
}

fn host(mem: Vec<u8>) -> HostType<Sha256, RepeatSigner> {
    HostType::new(ModuleId::from_slice(&[7, 7]), LinearMemory::from_bytes(mem))
}

fn memory_of(h: &HostType<Sha256, RepeatSigner>) -> Vec<u8> {
    h.get_memory().unwrap().as_bytes().to_vec()
}

const ABC_SHA256: [u8; 32] = [
    0xba, 0x78, 0x16, 0xbf, 0x8f, 0x01, 0xcf, 0xea, 0x41, 0x41, 0x40, 0xde, 0x5d, 0xae, 0x22,
    0x23, 0xb0, 0x03, 0x61, 0xa3, 0x96, 0x17, 0x7a, 0x9c, 0xb4, 0x10, 0xff, 0x61, 0xf2, 0x00,
    0x15, 0xad,
];

#[test]
fn resolve_known_names() {
    let h = host(vec![0; 4]);
    let names = ["copy", "get_hash_size", "hash", "get_signature_size", "sign"];
    for (i, name) in names.iter().enumerate() {
        let f = h.resolve_func(name).ok().unwrap();
        assert_eq!(f.index, i);
        let sig = h.get_signature(i);
        assert_eq!(f.signature.params, sig.params);
        assert_eq!(f.signature.result, sig.result);
    }
    assert_eq!(HOST_FUNC_COUNT, 5);
}

#[test]
fn resolve_unknown_name_is_refused() {
    let h = host(vec![0; 4]);
    let e = h.resolve_func("print").err().unwrap();
    assert_eq!(e.0, b"Export not found".to_vec());
    let e = h.resolve_func("cop").err().unwrap();
    assert_eq!(e.0, b"Export not found".to_vec());
    assert_eq!(h.resolve_global("g").0, b"Export not found".to_vec());
    assert_eq!(h.resolve_memory("memory").0, b"Export not found".to_vec());
    assert_eq!(h.resolve_table("t").0, b"Export not found".to_vec());
}

#[test]
fn signatures_of_host_functions() {
    let h = host(vec![]);
    for i in [0usize, 2, 4] {
        let sig = h.get_signature(i);
        assert_eq!(sig.params, vec![ValueType::I32, ValueType::I32, ValueType::I32]);
        assert_eq!(sig.result, None);
    }
    for i in [1usize, 3] {
        let sig = h.get_signature(i);
        assert!(sig.params.is_empty());
        assert_eq!(sig.result, Some(ValueType::I32));
    }
}

#[test]
fn sizes_are_returned() {
    let mut h = host(vec![0; 4]);
    assert_eq!(h.invoke_index(1, &[]), Some(Value::I32(32)));
    assert_eq!(h.invoke_index(3, &[]), Some(Value::I32(4)));
    assert_eq!(memory_of(&h), vec![0; 4]);
}

#[test]
fn copy_moves_region() {
    let mut h = host(vec![1, 2, 3, 4, 0, 0, 0, 0]);
    let args = [Value::I32(0), Value::I32(3), Value::I32(5)];
    assert_eq!(h.invoke_index(0, &args), None);
    assert_eq!(memory_of(&h), vec![1, 2, 3, 4, 0, 1, 2, 3]);
}

#[test]
fn copy_overlapping_region() {
    let mut h = host(vec![1, 2, 3, 4, 5]);
    let args = [Value::I32(0), Value::I32(3), Value::I32(2)];
    assert_eq!(h.invoke_index(0, &args), None);
    assert_eq!(memory_of(&h), vec![1, 2, 1, 2, 3]);
}

#[test]
fn hash_writes_digest() {
    let mut mem = vec![0u8; 40];
    mem[0..3].copy_from_slice(b"abc");
    let mut h = host(mem);
    let args = [Value::I32(0), Value::I32(3), Value::I32(8)];
    assert_eq!(h.invoke_index(2, &args), None);
    let out = memory_of(&h);
    assert_eq!(&out[0..3], b"abc");
    assert_eq!(&out[3..8], &[0u8; 5][..]);
    assert_eq!(&out[8..40], &ABC_SHA256[..]);
}

#[test]
fn sign_writes_signature() {
    let mut h = host(vec![9, 1, 0, 0, 0, 0, 0]);
    let args = [Value::I32(0), Value::I32(2), Value::I32(3)];
    assert_eq!(h.invoke_index(4, &args), None);
    assert_eq!(memory_of(&h), vec![9, 1, 0, 9, 9, 9, 9]);
}

#[test]
fn memory_can_be_replaced() {
    let mut h = host(vec![1]);
    h.set_memory(LinearMemory::from_bytes(vec![4, 5]));
    assert_eq!(memory_of(&h), vec![4, 5]);
    assert_eq!(h.id().as_slice(), &[7, 7][..]);
}

#[test]
fn sha256_digest_of_abc() {
    let d = Sha256::digest(b"abc");
    assert_eq!(d.as_ref(), &ABC_SHA256[..]);
}

#[test]
fn copy_of_nothing_changes_nothing() {
    let mut h = host(vec![1, 2, 3]);
    let args = [Value::I32(1), Value::I32(0), Value::I32(3)];
    assert_eq!(h.invoke_index(0, &args), None);
    assert_eq!(memory_of(&h), vec![1, 2, 3]);
}

#[test]
fn builder_defaults_and_given_parts() {
    let h: HostType<Sha256, RepeatSigner> = Builder::new().build();
    assert!(h.id().as_slice().is_empty());
    assert!(memory_of(&h).is_empty());
    let h: HostType<Sha256, RepeatSigner> = Builder::new()
        .memory(LinearMemory::from_bytes(vec![3, 4]))
        .module_id(&[1, 2])
        .build();
    assert_eq!(h.id().as_slice(), &[1, 2][..]);
    assert_eq!(memory_of(&h), vec![3, 4]);
}
