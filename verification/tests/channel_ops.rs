//! Channel semantics: round trips, draining, closure and handle transfer.

use oak_runtime::channel::Message;
use oak_runtime::label::Label;
use oak_runtime::runtime::{Configuration, Runtime, TEST_NODE_ID};
use oak_runtime::status::OakStatus;

fn empty_runtime() -> Runtime {
    Runtime::create(Configuration {
        nodes: Vec::new(),
        entry_module: b"test_module".to_vec(),
        entrypoint: b"oak_main".to_vec(),
    })
}

#[test]
fn message_round_trip_is_exact_and_exactly_once() {
    let mut rt = empty_runtime();
    let (w, r) = rt
        .new_channel(TEST_NODE_ID, Label::public_trusted())
        .unwrap();
    let (extra_w, _extra_r) = rt
        .new_channel(TEST_NODE_ID, Label::public_trusted())
        .unwrap();
    let msg = Message {
        bytes: vec![1, 2, 3, 4, 5],
        handles: vec![extra_w],
    };
    assert_eq!(Ok(()), rt.channel_write(TEST_NODE_ID, w, msg));
    let got = rt.channel_read(TEST_NODE_ID, r).unwrap().unwrap();
    assert_eq!(vec![1, 2, 3, 4, 5], got.bytes);
    assert_eq!(vec![extra_w], got.handles);
    // Exactly once: the queue is empty again.
    assert_eq!(Ok(None), rt.channel_read(TEST_NODE_ID, r));
}

#[test]
fn messages_are_read_in_write_order() {
    let mut rt = empty_runtime();
    let (w, r) = rt
        .new_channel(TEST_NODE_ID, Label::public_trusted())
        .unwrap();
    for i in 0..4u8 {
        let msg = Message { bytes: vec![i], handles: vec![] };
        assert_eq!(Ok(()), rt.channel_write(TEST_NODE_ID, w, msg));
    }
    for i in 0..4u8 {
        let got = rt.channel_read(TEST_NODE_ID, r).unwrap().unwrap();
        assert_eq!(vec![i], got.bytes);
    }
    assert_eq!(Ok(None), rt.channel_read(TEST_NODE_ID, r));
}

#[test]
fn closed_write_side_drains_then_reports_closure() {
    let mut rt = empty_runtime();
    let (w, r) = rt
        .new_channel(TEST_NODE_ID, Label::public_trusted())
        .unwrap();
    let m1 = Message { bytes: vec![10], handles: vec![] };
    let m2 = Message { bytes: vec![20], handles: vec![] };
    assert_eq!(Ok(()), rt.channel_write(TEST_NODE_ID, w, m1));
    assert_eq!(Ok(()), rt.channel_write(TEST_NODE_ID, w, m2));
    assert_eq!(Ok(()), rt.channel_close(TEST_NODE_ID, w));
    // Buffered messages drain first, in order.
    assert_eq!(
        vec![10],
        rt.channel_read(TEST_NODE_ID, r).unwrap().unwrap().bytes
    );
    assert_eq!(
        vec![20],
        rt.channel_read(TEST_NODE_ID, r).unwrap().unwrap().bytes
    );
    // Then the closure is reported.
    assert_eq!(
        Err(OakStatus::ErrChannelClosed),
        rt.channel_read(TEST_NODE_ID, r)
    );
}

#[test]
fn write_after_read_side_closed_fails() {
    let mut rt = empty_runtime();
    let (w, r) = rt
        .new_channel(TEST_NODE_ID, Label::public_trusted())
        .unwrap();
    assert_eq!(Ok(()), rt.channel_close(TEST_NODE_ID, r));
    let msg = Message { bytes: vec![1], handles: vec![] };
    assert_eq!(
        Err(OakStatus::ErrChannelClosed),
        rt.channel_write(TEST_NODE_ID, w, msg)
    );
}

#[test]
fn unknown_and_foreign_handles_fail_with_bad_handle() {
    let mut rt = empty_runtime();
    let (w, r) = rt
        .new_channel(TEST_NODE_ID, Label::public_trusted())
        .unwrap();
    // Unknown handle values.
    assert_eq!(
        Err(OakStatus::ErrBadHandle),
        rt.channel_read(TEST_NODE_ID, 999)
    );
    assert_eq!(
        Err(OakStatus::ErrBadHandle),
        rt.channel_read(TEST_NODE_ID, 0)
    );
    // Wrong direction.
    assert_eq!(
        Err(OakStatus::ErrBadHandle),
        rt.channel_read(TEST_NODE_ID, w)
    );
    let msg = Message { bytes: vec![], handles: vec![] };
    assert_eq!(
        Err(OakStatus::ErrBadHandle),
        rt.channel_write(TEST_NODE_ID, r, msg)
    );
    // Foreign owner.
    let other_node: u64 = 77;
    assert_eq!(
        Err(OakStatus::ErrBadHandle),
        rt.channel_read(other_node, r)
    );
    // A revoked handle stays unusable.
    assert_eq!(Ok(()), rt.channel_close(TEST_NODE_ID, r));
    assert_eq!(
        Err(OakStatus::ErrBadHandle),
        rt.channel_read(TEST_NODE_ID, r)
    );
}

#[test]
fn transferred_handle_is_revoked_from_sender_until_delivery() {
    let mut rt = empty_runtime();
    let (w, r) = rt
        .new_channel(TEST_NODE_ID, Label::public_trusted())
        .unwrap();
    let (tw, _tr) = rt
        .new_channel(TEST_NODE_ID, Label::public_trusted())
        .unwrap();
    let msg = Message { bytes: vec![], handles: vec![tw] };
    assert_eq!(Ok(()), rt.channel_write(TEST_NODE_ID, w, msg));
    // While the message is in transit, the sender's copy is unusable.
    let probe = Message { bytes: vec![], handles: vec![] };
    assert_eq!(
        Err(OakStatus::ErrBadHandle),
        rt.channel_write(TEST_NODE_ID, tw, probe)
    );
    // Delivery hands ownership to the reader.
    let got = rt.channel_read(TEST_NODE_ID, r).unwrap().unwrap();
    assert_eq!(vec![tw], got.handles);
    let probe2 = Message { bytes: vec![9], handles: vec![] };
    assert_eq!(Ok(()), rt.channel_write(TEST_NODE_ID, tw, probe2));
}

#[test]
fn ready_handle_multiplexes_reads() {
    let mut rt = empty_runtime();
    let (w1, r1) = rt
        .new_channel(TEST_NODE_ID, Label::public_trusted())
        .unwrap();
    let (_w2, r2) = rt
        .new_channel(TEST_NODE_ID, Label::public_trusted())
        .unwrap();
    // Nothing pending anywhere: a wait would block.
    assert_eq!(None, rt.ready_handle(TEST_NODE_ID, &vec![r1, r2]));
    // A pending message readies its channel.
    let msg = Message { bytes: vec![7], handles: vec![] };
    assert_eq!(Ok(()), rt.channel_write(TEST_NODE_ID, w1, msg));
    assert_eq!(Some(r1), rt.ready_handle(TEST_NODE_ID, &vec![r2, r1]));
    // A closed write side readies its channel too.
    assert_eq!(Ok(()), rt.channel_close(TEST_NODE_ID, _w2));
    assert_eq!(Some(r2), rt.ready_handle(TEST_NODE_ID, &vec![r2, r1]));
}

#[test]
fn proxy_operations_act_under_the_node_identity() {
    let mut rt = empty_runtime();
    let proxy = rt.new_runtime_proxy();
    let (w, r) = proxy.new_channel(&mut rt, Label::public_trusted()).unwrap();
    let msg = Message { bytes: vec![42], handles: vec![] };
    assert_eq!(Ok(()), proxy.channel_write(&mut rt, w, msg));
    // The proxy's channel is not usable under another identity.
    assert_eq!(
        Err(OakStatus::ErrBadHandle),
        rt.channel_read(TEST_NODE_ID, r)
    );
    let got = proxy.channel_read(&mut rt, r).unwrap().unwrap();
    assert_eq!(vec![42], got.bytes);
    assert_eq!(Ok(()), proxy.channel_close(&mut rt, w));
    assert_eq!(Ok(()), proxy.channel_close(&mut rt, r));
}
