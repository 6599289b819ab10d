//! Label checks, node lifecycle, and runtime shutdown.

use oak_runtime::label::Label;
use oak_runtime::node::{NodeInstance, NodeState};
use oak_runtime::options::Opt;
use oak_runtime::runtime::{Configuration, Runtime, TEST_NODE_ID};
use oak_runtime::status::OakStatus;
use oak_runtime::wasm::WasmNode;

fn empty_runtime() -> Runtime {
    Runtime::create(Configuration {
        nodes: Vec::new(),
        entry_module: b"test_module".to_vec(),
        entrypoint: b"oak_main".to_vec(),
    })
}

fn minimal_module() -> Vec<u8> {
    wat::parse_str(
        r#"
    (module
        (type (;0;) (func (param i64)))
        (func $oak_main (type 0))
        (memory (;0;) 18)
        (export "memory" (memory 0))
        (export "oak_main" (func $oak_main)))
    "#,
    )
    .unwrap()
}

#[test]
fn can_flow_to_is_reflexive_and_public_trusted_is_bottom() {
    let l = Label {
        confidentiality_tags: vec![3, 1, 4],
        integrity_tags: vec![1, 5],
    };
    assert!(l.can_flow_to(&l));
    let pt = Label::public_trusted();
    assert!(pt.can_flow_to(&pt));
    // The public-trusted label flows to any label without integrity demands.
    let conf_only = Label {
        confidentiality_tags: vec![9, 8],
        integrity_tags: vec![],
    };
    assert!(pt.can_flow_to(&conf_only));
    // A destination that demands integrity refuses the flow.
    assert!(!pt.can_flow_to(&l));
}

#[test]
fn can_flow_to_orders_by_tags() {
    let low = Label {
        confidentiality_tags: vec![1],
        integrity_tags: vec![7, 8],
    };
    let high = Label {
        confidentiality_tags: vec![1, 2],
        integrity_tags: vec![7],
    };
    // More confidential destination, fewer integrity demands: allowed.
    assert!(low.can_flow_to(&high));
    // The reverse drops a confidentiality tag: refused.
    assert!(!high.can_flow_to(&low));
}

#[test]
fn channel_creation_is_label_checked() {
    let mut rt = empty_runtime();
    // The bootstrap caller is public-trusted: an integrity-demanding channel
    // label is out of its reach.
    let demanding = Label {
        confidentiality_tags: vec![],
        integrity_tags: vec![42],
    };
    assert_eq!(
        Err(OakStatus::ErrPermissionDenied),
        rt.new_channel(TEST_NODE_ID, demanding)
    );
    // A confidentiality-only label is acceptable.
    let secret = Label {
        confidentiality_tags: vec![42],
        integrity_tags: vec![],
    };
    assert!(rt.new_channel(TEST_NODE_ID, secret).is_ok());
}

#[test]
fn node_start_is_label_checked_before_validation() {
    let mut rt = empty_runtime();
    let node = NodeInstance::Wasm(WasmNode::new(
        b"n".to_vec(),
        minimal_module(),
        b"oak_main".to_vec(),
        0,
    ));
    let demanding = Label {
        confidentiality_tags: vec![],
        integrity_tags: vec![1],
    };
    let result = rt.node_start_instance(7, b"n".to_vec(), node, demanding, vec![]);
    assert_eq!(Err(OakStatus::ErrPermissionDenied), result);
    // A label failure registers nothing.
    assert_eq!(None, rt.node_state(7));
}

#[test]
fn failed_validation_records_failed_to_start() {
    let mut rt = empty_runtime();
    let node = NodeInstance::Wasm(WasmNode::new(
        b"n".to_vec(),
        vec![0x00, 0x61, 0x73, 0x6d, 0x01, 0x00, 0x00, 0x00],
        b"oak_main".to_vec(),
        0,
    ));
    let result =
        rt.node_start_instance(7, b"n".to_vec(), node, Label::public_trusted(), vec![]);
    assert_eq!(Err(OakStatus::ErrInvalidArgs), result);
    assert_eq!(Some(NodeState::FailedToStart), rt.node_state(7));
}

#[test]
fn stop_succeeds_after_failed_start() {
    let mut rt = empty_runtime();
    let node = NodeInstance::Wasm(WasmNode::new(
        b"n".to_vec(),
        vec![0x00, 0x61, 0x73, 0x6d, 0x01, 0x00, 0x00, 0x00],
        b"oak_main".to_vec(),
        0,
    ));
    let result =
        rt.node_start_instance(7, b"n".to_vec(), node, Label::public_trusted(), vec![]);
    assert!(result.is_err());
    // No node ever ran; stopping completes all the same and the failed node
    // stays in its terminal state.
    rt.stop();
    assert!(rt.stopped);
    assert_eq!(Some(NodeState::FailedToStart), rt.node_state(7));
}

#[test]
fn stop_terminates_running_nodes_and_revokes_handles() {
    let mut rt = empty_runtime();
    let (w, r) = rt
        .new_channel(TEST_NODE_ID, Label::public_trusted())
        .unwrap();
    let node = NodeInstance::Wasm(WasmNode::new(
        b"n".to_vec(),
        minimal_module(),
        b"oak_main".to_vec(),
        r,
    ));
    let result =
        rt.node_start_instance(7, b"n".to_vec(), node, Label::public_trusted(), vec![r]);
    assert_eq!(Ok(()), result);
    assert_eq!(Some(NodeState::Running), rt.node_state(7));
    rt.stop();
    assert_eq!(Some(NodeState::Terminated), rt.node_state(7));
    // Every handle is revoked.
    let msg = oak_runtime::channel::Message { bytes: vec![], handles: vec![] };
    assert_eq!(
        Err(OakStatus::ErrBadHandle),
        rt.channel_write(TEST_NODE_ID, w, msg)
    );
}

#[test]
fn finished_node_is_recorded_and_releases_its_handles() {
    let mut rt = empty_runtime();
    let (w, r) = rt
        .new_channel(TEST_NODE_ID, Label::public_trusted())
        .unwrap();
    let node_id: u64 = 9;
    let node = NodeInstance::Wasm(WasmNode::new(
        b"n".to_vec(),
        minimal_module(),
        b"oak_main".to_vec(),
        r,
    ));
    assert_eq!(
        Ok(()),
        rt.node_start_instance(node_id, b"n".to_vec(), node, Label::public_trusted(), vec![r])
    );
    rt.mark_node_finished(node_id, false);
    assert_eq!(Some(NodeState::Completed), rt.node_state(node_id));
    // A trapped ending is terminal too and never overwrites a completed one.
    rt.mark_node_finished(node_id, true);
    assert_eq!(Some(NodeState::Completed), rt.node_state(node_id));
    // Releasing the handles a node still owns closes them one by one.
    let owned = rt.owned_handles(TEST_NODE_ID);
    assert!(owned.contains(&w));
    for h in owned {
        assert_eq!(Ok(()), rt.channel_close(TEST_NODE_ID, h));
    }
    assert_eq!(Err(OakStatus::ErrBadHandle), rt.channel_close(TEST_NODE_ID, w));
}

#[test]
fn runtime_scenario_empty_config_preamble_then_minimal() {
    // Configure a runtime with an empty node map and an entry module named
    // "test_module" with entrypoint "oak_main".
    let mut rt = Runtime::create(Configuration {
        nodes: Vec::new(),
        entry_module: b"test_module".to_vec(),
        entrypoint: b"oak_main".to_vec(),
    });
    // Create a public-trusted channel.
    let (_w, r) = rt
        .new_channel(TEST_NODE_ID, Label::public_trusted())
        .unwrap();
    // A module consisting only of the 8-byte preamble is refused.
    let preamble_only = vec![0x00, 0x61, 0x73, 0x6d, 0x01, 0x00, 0x00, 0x00];
    let bad = NodeInstance::Wasm(WasmNode::new(
        b"bad".to_vec(),
        preamble_only,
        b"oak_main".to_vec(),
        r,
    ));
    assert_eq!(
        Err(OakStatus::ErrInvalidArgs),
        rt.node_start_instance(1, b"bad".to_vec(), bad, Label::public_trusted(), vec![])
    );
    // A well-formed minimal module with a correct "oak_main" export starts.
    let good = NodeInstance::Wasm(WasmNode::new(
        b"good".to_vec(),
        minimal_module(),
        b"oak_main".to_vec(),
        r,
    ));
    assert_eq!(
        Ok(()),
        rt.node_start_instance(2, b"good".to_vec(), good, Label::public_trusted(), vec![])
    );
    // Stopping succeeds in both prior cases.
    rt.stop();
    assert!(rt.stopped);
}

#[test]
fn loader_options_carry_their_fields() {
    let opt = Opt::new(8080, String::from("module.bin"), String::from("config.toml"));
    assert_eq!(8080, opt.http_listen_port);
    assert_eq!("module.bin", opt.wasm_path);
    assert_eq!("config.toml", opt.config_path);
}
