//! Starting module-backed nodes: validation against the loading contract.

use oak_runtime::label::Label;
use oak_runtime::node::NodeInstance;
use oak_runtime::runtime::{Configuration, Runtime, TEST_NODE_ID};
use oak_runtime::status::OakStatus;
use oak_runtime::wasm::WasmNode;

fn start_node(binary: Vec<u8>, entrypoint: &str) -> Result<(), OakStatus> {
    let configuration = Configuration {
        nodes: Vec::new(),
        entry_module: b"test_module".to_vec(),
        entrypoint: entrypoint.as_bytes().to_vec(),
    };
    let mut runtime = Runtime::create(configuration);
    let (_, reader_handle) = runtime
        .new_channel(TEST_NODE_ID, Label::public_trusted())
        .unwrap();

    let _runtime_proxy = runtime.new_runtime_proxy();

    let node = NodeInstance::Wasm(WasmNode::new(
        b"test".to_vec(),
        binary,
        entrypoint.as_bytes().to_vec(),
        reader_handle,
    ));

    let result = runtime.node_start_instance(
        TEST_NODE_ID,
        b"test.node".to_vec(),
        node,
        Label::public_trusted(),
        vec![],
    );

    // Ensure that the runtime can terminate correctly, regardless of what the node does.
    runtime.stop();

    result
}

const MINIMAL_WAT: &str = r#"
(module
    (type (;0;) (func (param i64)))
    (func $oak_main (type 0))
    (memory (;0;) 18)
    (export "memory" (memory 0))
    (export "oak_main" (func $oak_main)))
"#;

#[test]
fn wasm_starting_module_without_content_fails() {
    // Loads an empty module that does not have the necessary entry point, so it should fail
    // immediately.
    let binary = wat::parse_str("(module)").unwrap();

    // An empty module is equivalent to: [0x00, 0x61, 0x73, 0x6d, 0x01, 0x00, 0x00, 0x00]
    // Minimal module:
    // \0asm - magic
    // 0x01 - version (in little-endian)
    assert_eq!(binary, vec![0x00, 0x61, 0x73, 0x6d, 0x01, 0x00, 0x00, 0x00]);
    let result = start_node(binary, "oak_main");
    assert_eq!(Some(OakStatus::ErrInvalidArgs), result.err());
}

#[test]
fn wasm_starting_minimal_module_succeeds() {
    let binary = wat::parse_str(MINIMAL_WAT).unwrap();
    let result = start_node(binary, "oak_main");
    assert_eq!(true, result.is_ok());
}

#[test]
fn wasm_starting_module_missing_an_export_fails() {
    // The module has the right memory export but no entrypoint export at all.
    let wat = r#"
    (module
        (type (;0;) (func (param i64)))
        (func $oak_main (type 0))
        (memory (;0;) 18)
        (export "memory" (memory 0)))
    "#;
    let binary = wat::parse_str(wat).unwrap();
    let result = start_node(binary, "oak_main");
    assert_eq!(Some(OakStatus::ErrInvalidArgs), result.err());
}

#[test]
fn wasm_starting_module_with_wrong_export_fails() {
    let binary = wat::parse_str(MINIMAL_WAT).unwrap();
    let result = start_node(binary, "oak_other_main");
    assert_eq!(Some(OakStatus::ErrInvalidArgs), result.err());
}

#[test]
fn wasm_starting_module_with_wrong_signature_fails() {
    // Wrong signature: the parameter is 32 bits wide instead of 64.
    let wat = r#"
    (module
        (type (;0;) (func (param i32)))
        (func $oak_main (type 0))
        (memory (;0;) 18)
        (export "memory" (memory 0))
        (export "oak_main" (func $oak_main)))
    "#;
    let binary = wat::parse_str(wat).unwrap();
    let result = start_node(binary, "oak_main");
    assert_eq!(Some(OakStatus::ErrInvalidArgs), result.err());
}

#[test]
fn wasm_starting_module_with_wrong_signature_2_fails() {
    // As a source of inspiration for writing tests in future, this test intentionally parses
    // the module from a string literal as opposed to loading from file.

    // Wrong signature: oak_main does not take any parameters
    let wat = r#"
    (module
        (func $oak_main)
        (memory (;0;) 18)
        (export "memory" (memory 0))
        (export "oak_main" (func $oak_main)))
    "#;
    let binary = wat::parse_str(wat).unwrap();
    let result = start_node(binary, "oak_main");
    assert_eq!(Some(OakStatus::ErrInvalidArgs), result.err());
}

#[test]
fn wasm_starting_module_with_wrong_signature_3_fails() {
    // Wrong signature: oak_main has the correct input parameter, but returns i32
    let wat = r#"
    (module
        (type (;0;) (func (param i64) (result i32)))
        (func $oak_main (type 0)
          i32.const 42)
        (memory (;0;) 18)
        (export "memory" (memory 0))
        (export "oak_main" (func $oak_main)))
    "#;
    let binary = wat::parse_str(wat).unwrap();
    let result = start_node(binary, "oak_main");
    assert_eq!(Some(OakStatus::ErrInvalidArgs), result.err());
}

#[test]
fn wasm_validate_rejects_wrong_kind_under_entrypoint_name() {
    // An export exists under the entrypoint name, but it is a memory, not a
    // function.
    let wat = r#"
    (module
        (memory (;0;) 1)
        (memory (;1;) 1)
        (export "memory" (memory 0))
        (export "oak_main" (memory 1)))
    "#;
    let binary = wat::parse_str(wat).unwrap();
    let result = start_node(binary, "oak_main");
    assert_eq!(Some(OakStatus::ErrInvalidArgs), result.err());
}

#[test]
fn wasm_validate_rejects_garbage_bytes() {
    let binary = vec![0xde, 0xad, 0xbe, 0xef, 0x00, 0x01, 0x02, 0x03, 0x04];
    let result = start_node(binary, "oak_main");
    assert_eq!(Some(OakStatus::ErrInvalidArgs), result.err());
}

#[test]
fn wasm_validate_accepts_imports_before_entrypoint() {
    // An imported function shifts the function index space; the entrypoint
    // must still resolve to its own (i64) -> () type.
    let wat = r#"
    (module
        (type (;0;) (func (param i32) (result i32)))
        (type (;1;) (func (param i64)))
        (import "env" "helper" (func $helper (type 0)))
        (func $oak_main (type 1))
        (memory (;0;) 1)
        (export "memory" (memory 0))
        (export "oak_main" (func $oak_main)))
    "#;
    let binary = wat::parse_str(wat).unwrap();
    let result = start_node(binary, "oak_main");
    assert_eq!(true, result.is_ok());
}

#[test]
fn wasm_validate_module_rejects_missing_memory_export() {
    let wat = r#"
    (module
        (type (;0;) (func (param i64)))
        (func $oak_main (type 0))
        (memory (;0;) 1)
        (export "oak_main" (func $oak_main)))
    "#;
    let binary = wat::parse_str(wat).unwrap();
    assert_eq!(
        Err(OakStatus::ErrInvalidArgs),
        oak_runtime::wasm::validate_module(&binary, &b"oak_main".to_vec())
    );
}

#[test]
fn wasm_validate_rejects_module_the_engine_refuses() {
    // Structurally complete (preamble, type, function, memory and export
    // sections) but with no code section: the engine refuses to translate
    // such a module even though its export surface looks right.
    let mut binary: Vec<u8> = vec![0x00, 0x61, 0x73, 0x6d, 0x01, 0x00, 0x00, 0x00];
    // Type section: one type, (i64) -> ().
    binary.extend_from_slice(&[0x01, 0x05, 0x01, 0x60, 0x01, 0x7e, 0x00]);
    // Function section: one function of type 0.
    binary.extend_from_slice(&[0x03, 0x02, 0x01, 0x00]);
    // Memory section: one memory, min 1.
    binary.extend_from_slice(&[0x05, 0x03, 0x01, 0x00, 0x01]);
    // Export section: "memory" (memory 0) and "oak_main" (func 0).
    binary.extend_from_slice(&[
        0x07, 0x15, 0x02, 0x06, b'm', b'e', b'm', b'o', b'r', b'y', 0x02, 0x00, 0x08, b'o', b'a',
        b'k', b'_', b'm', b'a', b'i', b'n', 0x00, 0x00,
    ]);
    assert_eq!(
        Err(OakStatus::ErrInvalidArgs),
        oak_runtime::wasm::validate_module(&binary, &b"oak_main".to_vec())
    );
}
