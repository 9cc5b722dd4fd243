use pdcn_common::crypto::Sha256;
use pdcn_common::define_text::{push_debug_bytes, push_decimal, render_define_file};
use pdcn_common::fault::{handle_panic, oom, FaultAction};
use pdcn_common::registry::{Helper, ModuleId, WasmEntry, WasmTable};

fn table() -> WasmTable {
    WasmTable::new(vec![
        WasmEntry::new::<Sha256>(b"panic".to_vec(), vec![0, 97, 115, 109]),
        WasmEntry::new::<Sha256>(b"attest".to_vec(), vec![0, 97, 115, 109, 1]),
    ])
}

#[test]
fn entry_id_is_digest_of_binary() {
    let e = WasmEntry::new::<Sha256>(b"x".to_vec(), b"abc".to_vec());
    assert_eq!(e.id, Sha256::digest(b"abc").as_ref().to_vec());
    assert_eq!(e.bytes, b"abc".to_vec());
    assert_eq!(e.name, b"x".to_vec());
}

#[test]
fn bytes_found_by_id_and_name() {
    let t = table();
    let id = t.module_id_of(b"attest").unwrap();
    assert_eq!(id.as_slice(), Sha256::digest(&[0, 97, 115, 109, 1]).as_ref());
    assert_eq!(t.bytes_of_id(&id), Some(&[0u8, 97, 115, 109, 1][..]));
    let id = t.module_id_of(b"panic").unwrap();
    assert_eq!(Helper::<Sha256>::bytes_of_id(&t, &id), Some(&[0u8, 97, 115, 109][..]));
}

#[test]
fn unknown_module_is_not_found() {
    let t = table();
    assert!(t.module_id_of(b"missing").is_none());
    assert!(t.bytes_of_id(&ModuleId::from_slice(&[1, 2, 3])).is_none());
}

#[test]
fn helper_names() {
    let _h: Helper<Sha256> = Helper::new();
    assert_eq!(Helper::<Sha256>::entry_func(), "main");
    assert_eq!(Helper::<Sha256>::entry_memory(), "memory");
    assert_eq!(Helper::<Sha256>::host_module(), "host");
    assert_eq!(Helper::<Sha256>::verify_module(), "ATTESTATION");
}

#[test]
fn decimal_digits() {
    for n in [0usize, 7, 10, 255, 1234567, usize::MAX] {
        let mut out = b"x".to_vec();
        push_decimal(&mut out, n);
        assert_eq!(out, format!("x{}", n).into_bytes());
    }
}

#[test]
fn debug_form_of_bytes() {
    for s in [vec![], vec![5u8], vec![0u8, 10, 255]] {
        let mut out = Vec::new();
        push_debug_bytes(&mut out, &s);
        assert_eq!(out, format!("{:?}", &s[..]).into_bytes());
    }
}

#[test]
fn define_file_for_no_module() {
    let text = render_define_file(&vec![]);
    assert_eq!(text, b"use crate::define_wasm;\ndefine_wasm!();".to_vec());
}

#[test]
fn define_file_for_two_modules() {
    let entries = vec![
        WasmEntry::new::<Sha256>(b"panic".to_vec(), vec![0, 97, 115, 109]),
        WasmEntry::new::<Sha256>(b"attest".to_vec(), vec![1, 2]),
    ];
    let id0 = Sha256::digest(&[0, 97, 115, 109]);
    let id1 = Sha256::digest(&[1, 2]);
    let expected = format!(
        "use crate::define_wasm;\ndefine_wasm!(({:?},[0, 97, 115, 109],4,panic),({:?},[1, 2],2,attest));",
        id0.as_ref(),
        id1.as_ref()
    );
    assert_eq!(render_define_file(&entries), expected.into_bytes());
}

#[test]
fn faults() {
    assert_eq!(handle_panic(), FaultAction::Trap);
    assert_eq!(oom(64, 8), FaultAction::Halt);
}
