use zinnia_host::codec::{base64_encode, op_base64_atob};
use zinnia_host::errors::HostError;
use zinnia_host::loader::{demo_namespace, EvalStatus, ModuleKind, NamespaceEntry, ZinniaModuleLoader};
use zinnia_host::ops::{
    check_bootstrap, default_registry, CallMode, OpDescriptor, OpRegistry, ValueSchema,
};

#[test]
fn resolve_known_specifier() {
    let loader = demo_namespace();
    let sp = loader.resolve("zinnia://demo-module.js").unwrap();
    assert_eq!(sp.text, "zinnia://demo-module.js");
    let sp = loader.resolve("zinnia://demo-module-rs.js").unwrap();
    assert_eq!(sp.text, "zinnia://demo-module-rs.js");
}

#[test]
fn resolve_unknown_specifier_not_found() {
    let loader = demo_namespace();
    assert_eq!(loader.resolve("unknown://missing"), Err(HostError::NotFound));
    assert_eq!(loader.resolve(""), Err(HostError::NotFound));
    assert_eq!(loader.resolve("zinnia://demo-module.j"), Err(HostError::NotFound));
}

#[test]
fn load_static_known_specifier() {
    let loader = demo_namespace();
    let rec = loader.load("zinnia://demo-module.js", false).unwrap();
    assert_eq!(rec.specifier, "zinnia://demo-module.js");
    assert!(matches!(rec.kind, ModuleKind::Script));
    assert!(matches!(rec.status, EvalStatus::Loaded));
    assert_eq!(rec.program.len(), 3);
    let rec = loader.load("zinnia://demo-module-rs.loader.js", false).unwrap();
    assert!(matches!(rec.kind, ModuleKind::CompiledArtifact));
}

#[test]
fn load_unknown_specifier_not_found() {
    let loader = demo_namespace();
    assert!(matches!(loader.load("unknown://missing", false), Err(HostError::NotFound)));
}

#[test]
fn load_dynamic_always_unsupported() {
    let loader = demo_namespace();
    // Even a specifier that would otherwise resolve is refused dynamically.
    assert!(matches!(
        loader.load("zinnia://demo-module.js", true),
        Err(HostError::UnsupportedOperation)
    ));
    assert!(matches!(
        loader.load("unknown://missing", true),
        Err(HostError::UnsupportedOperation)
    ));
}

#[test]
fn loader_with_empty_namespace_rejects_everything() {
    let loader = ZinniaModuleLoader { entries: Vec::new() };
    assert_eq!(loader.resolve("zinnia://demo-module.js"), Err(HostError::NotFound));
    assert!(matches!(loader.load("zinnia://demo-module.js", false), Err(HostError::NotFound)));
}

#[test]
fn decode_op_valid_input() {
    assert_eq!(op_base64_atob(b"aGVsbG8="), Ok(b"hello".to_vec()));
    assert_eq!(op_base64_atob(b""), Ok(Vec::new()));
}

#[test]
fn decode_op_ignores_ascii_whitespace() {
    assert_eq!(op_base64_atob(b"aGVs bG8="), Ok(b"hello".to_vec()));
    assert_eq!(op_base64_atob(b"aGVs\nbG8="), Ok(b"hello".to_vec()));
}

#[test]
fn decode_op_malformed_input_decode_error() {
    assert_eq!(op_base64_atob(b"!!!"), Err(HostError::DecodeError));
    assert_eq!(op_base64_atob(b"a"), Err(HostError::DecodeError));
}

#[test]
fn decode_inverts_encode() {
    let samples: Vec<Vec<u8>> = vec![
        Vec::new(),
        b"f".to_vec(),
        b"fo".to_vec(),
        b"foo".to_vec(),
        b"hello world".to_vec(),
        vec![0u8, 255u8, 7u8, 128u8],
    ];
    for x in samples {
        let encoded = base64_encode(&x);
        assert_eq!(op_base64_atob(&encoded), Ok(x));
    }
}

#[test]
fn encode_matches_standard_base64() {
    // The encode helper is the standard base64 encoder, not the identity.
    let x = b"hi";
    let encoded = base64_encode(x);
    assert_eq!(encoded, base64_simd::STANDARD.encode_to_string(x).into_bytes());
    assert_ne!(encoded, x.to_vec());
    // And the library's decode agrees with the outside decoder.
    assert_eq!(
        op_base64_atob(&encoded).unwrap(),
        base64_simd::forgiving_decode_to_vec(&encoded).unwrap()
    );
}

#[test]
fn default_registry_carries_baseline_surface() {
    let reg = default_registry();
    assert!(check_bootstrap(&reg));
    let (mode, arg, result) = reg.lookup(&"op_log".to_owned()).unwrap();
    assert!(matches!(mode, CallMode::Sync));
    assert!(matches!(arg, ValueSchema::Str));
    assert!(matches!(result, ValueSchema::Unit));
    let (mode, arg, _) = reg.lookup(&"op_sleep".to_owned()).unwrap();
    assert!(matches!(mode, CallMode::Async));
    assert!(matches!(arg, ValueSchema::U64));
    let (mode, arg, result) = reg.lookup(&"op_base64_atob".to_owned()).unwrap();
    assert!(matches!(mode, CallMode::Sync));
    assert!(matches!(arg, ValueSchema::Bytes));
    assert!(matches!(result, ValueSchema::Bytes));
    assert!(reg.lookup(&"op_missing".to_owned()).is_none());
}

#[test]
fn register_rejects_colliding_name() {
    let mut reg = OpRegistry { ops: Vec::new() };
    let first = reg.register(OpDescriptor {
        name: "op_log".to_owned(),
        mode: CallMode::Sync,
        arg: ValueSchema::Str,
        result: ValueSchema::Unit,
    });
    assert_eq!(first, Ok(()));
    let second = reg.register(OpDescriptor {
        name: "op_log".to_owned(),
        mode: CallMode::Async,
        arg: ValueSchema::U64,
        result: ValueSchema::Unit,
    });
    assert_eq!(second, Err(HostError::FatalBootstrapError));
    assert_eq!(reg.ops.len(), 1);
}

#[test]
fn namespace_entry_shape_is_preserved_by_load() {
    let entries = vec![NamespaceEntry {
        specifier: "zinnia://one.js".to_owned(),
        kind: ModuleKind::Script,
        program: Vec::new(),
    }];
    let loader = ZinniaModuleLoader { entries };
    let rec = loader.load("zinnia://one.js", false).unwrap();
    assert_eq!(rec.specifier, "zinnia://one.js");
    assert_eq!(rec.program.len(), 0);
    assert!(matches!(rec.status, EvalStatus::Loaded));
}
