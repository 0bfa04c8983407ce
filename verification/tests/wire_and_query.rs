use nftnl::Error;
use nftnl::MsgType;
use nftnl::ProtoFamily;
use nftnl::chain::Chain;
use nftnl::handle::Allocator;
use nftnl::query::CB_ERROR;
use nftnl::query::CB_OK;
use nftnl::query::build_list_request;
use nftnl::query::get_rules_cb;
use nftnl::query::list_rules_for_chain;
use nftnl::rule::Rule;
use nftnl::table::Table;

fn setup(heap: &mut Allocator) -> Chain {
    let table = Table::new(ProtoFamily::Ipv4, b"filter".to_vec(), heap).unwrap();
    Chain::new(&table, b"input".to_vec(), heap).unwrap()
}

fn le32(buf: &[u8], at: usize) -> u32 {
    (buf[at] as u32)
        | ((buf[at + 1] as u32) << 8)
        | ((buf[at + 2] as u32) << 16)
        | ((buf[at + 3] as u32) << 24)
}

#[test]
fn add_message_header_is_byte_exact() {
    let mut heap = Allocator::with_capacity(16);
    let chain = setup(&mut heap);
    let rule = Rule::new(&chain, &mut heap).unwrap();
    let mut buf: Vec<u8> = Vec::new();
    rule.write(&mut buf, 42, MsgType::Add);

    // length field covers the whole message
    assert_eq!(le32(&buf, 0) as usize, buf.len());
    // type = NEWRULE (6)
    assert_eq!(&buf[4..6], &[6, 0]);
    // family = IPv4 (2)
    assert_eq!(&buf[6..8], &[2, 0]);
    // flags = CREATE | APPEND | EXCLUSIVE | ACK = 0x0e04
    assert_eq!(&buf[8..10], &[0x04, 0x0e]);
    // sequence number 42
    assert_eq!(&buf[10..14], &[42, 0, 0, 0]);
    // reserved
    assert_eq!(&buf[14..16], &[0, 0]);
}

#[test]
fn delete_message_header_is_byte_exact() {
    let mut heap = Allocator::with_capacity(16);
    let chain = setup(&mut heap);
    let rule = Rule::new(&chain, &mut heap).unwrap();
    let mut buf: Vec<u8> = Vec::new();
    rule.write(&mut buf, 7, MsgType::Del);

    assert_eq!(le32(&buf, 0) as usize, buf.len());
    // type = DELRULE (8)
    assert_eq!(&buf[4..6], &[8, 0]);
    // flags = ACK only
    assert_eq!(&buf[8..10], &[0x04, 0x00]);
    // sequence number 7
    assert_eq!(&buf[10..14], &[7, 0, 0, 0]);
}

#[test]
fn write_appends_at_buffer_cursor() {
    let mut heap = Allocator::with_capacity(16);
    let chain = setup(&mut heap);
    let rule = Rule::new(&chain, &mut heap).unwrap();
    let mut batch: Vec<u8> = Vec::new();
    rule.write(&mut batch, 1, MsgType::Add);
    let first = batch.len();
    rule.write(&mut batch, 2, MsgType::Del);
    // two messages in one batch buffer, each internally consistent
    assert_eq!(le32(&batch, 0) as usize, first);
    assert_eq!(le32(&batch, first) as usize, batch.len() - first);
    assert_eq!(batch[first + 10], 2);
}

#[test]
fn list_request_carries_filter() {
    let mut heap = Allocator::with_capacity(16);
    let chain = setup(&mut heap);
    let req = build_list_request(&chain, 5, &mut heap).unwrap();
    assert_eq!(le32(&req, 0) as usize, req.len());
    // type = GETRULE (7), family IPv4, flags = DUMP (0x300)
    assert_eq!(&req[4..6], &[7, 0]);
    assert_eq!(&req[6..8], &[2, 0]);
    assert_eq!(&req[8..10], &[0x00, 0x03]);
    assert_eq!(&req[10..14], &[5, 0, 0, 0]);
    // the filter names the table and chain
    assert_eq!(&req[20..27], b"filter\0");
    assert_eq!(&req[32..38], b"input\0");
}

#[test]
fn list_request_allocation_failure() {
    let mut heap = Allocator::with_capacity(2);
    let chain = setup(&mut heap);
    match build_list_request(&chain, 5, &mut heap) {
        Err(Error::AllocationFailed) => {},
        _ => panic!("expected AllocationFailed"),
    }
}

#[test]
fn list_collects_all_rules_in_order() {
    let mut heap = Allocator::with_capacity(64);
    let chain = setup(&mut heap);

    // three kernel-confirmed rules, serialized as responses
    let mut responses: Vec<Vec<u8>> = Vec::new();
    for handle in [11u64, 22, 33] {
        let mut r = Rule::new(&chain, &mut heap).unwrap();
        r.set_handle(handle);
        r.set_position(handle * 10);
        let mut buf: Vec<u8> = Vec::new();
        r.write(&mut buf, 1, MsgType::Add);
        responses.push(buf);
    }

    let rules = list_rules_for_chain(&chain, &responses, &mut heap).unwrap();
    assert_eq!(rules.len(), 3);
    for (i, handle) in [11u64, 22, 33].iter().enumerate() {
        assert_eq!(rules[i].get_handle(), *handle);
        assert_eq!(rules[i].get_position(), handle * 10);
        assert_eq!(rules[i].get_chain().get_name(), chain.get_name());
    }
}

#[test]
fn malformed_response_aborts_whole_list() {
    let mut heap = Allocator::with_capacity(64);
    let chain = setup(&mut heap);

    let mut responses: Vec<Vec<u8>> = Vec::new();
    for _ in 0..3 {
        let r = Rule::new(&chain, &mut heap).unwrap();
        let mut buf: Vec<u8> = Vec::new();
        r.write(&mut buf, 1, MsgType::Add);
        responses.push(buf);
    }
    // a fourth, malformed message: truncated header
    responses.push(vec![1, 2, 3]);

    // the whole operation fails; no partial list of 3 comes back
    match list_rules_for_chain(&chain, &responses, &mut heap) {
        Err(Error::ParseFailed(code)) => assert!(code < 0),
        _ => panic!("expected ParseFailed"),
    }
}

#[test]
fn list_allocation_failure_aborts() {
    let mut heap = Allocator::with_capacity(16);
    let chain = setup(&mut heap);
    let mut responses: Vec<Vec<u8>> = Vec::new();
    for _ in 0..3 {
        let r = Rule::new(&chain, &mut heap).unwrap();
        let mut buf: Vec<u8> = Vec::new();
        r.write(&mut buf, 1, MsgType::Add);
        responses.push(buf);
    }
    // leave exactly one grant: the second response cannot be allocated
    let mut small = Allocator::with_capacity(1);
    match list_rules_for_chain(&chain, &responses, &mut small) {
        Err(Error::AllocationFailed) => {},
        _ => panic!("expected AllocationFailed"),
    }
}

#[test]
fn callback_verdicts() {
    let mut heap = Allocator::with_capacity(16);
    let chain = setup(&mut heap);
    let r = Rule::new(&chain, &mut heap).unwrap();
    let mut buf: Vec<u8> = Vec::new();
    r.write(&mut buf, 1, MsgType::Add);

    let mut rules: Vec<Rule> = Vec::new();
    assert_eq!(get_rules_cb(&buf, &chain, &mut rules, &mut heap), CB_OK);
    assert_eq!(rules.len(), 1);

    // malformed message: negative parse code, nothing appended
    let bad = vec![0u8; 20];
    assert!(get_rules_cb(&bad, &chain, &mut rules, &mut heap) < 0);
    assert_eq!(rules.len(), 1);

    // exhausted allocator: CB_ERROR
    let mut empty = Allocator::exhausted();
    assert_eq!(get_rules_cb(&buf, &chain, &mut rules, &mut empty), CB_ERROR);
    assert_eq!(rules.len(), 1);
}

#[test]
fn userdata_round_trips_through_the_wire() {
    let mut heap = Allocator::with_capacity(64);
    let chain = setup(&mut heap);
    let mut r = Rule::new(&chain, &mut heap).unwrap();
    let data: Vec<u8> = (1u8..=200).collect();
    r.set_userdata(&data);
    let mut buf: Vec<u8> = Vec::new();
    r.write(&mut buf, 1, MsgType::Add);

    let rules = list_rules_for_chain(&chain, &vec![buf], &mut heap).unwrap();
    assert_eq!(rules[0].get_userdata().unwrap(), &data);
}

#[test]
fn unset_userdata_round_trips_as_no_value() {
    let mut heap = Allocator::with_capacity(64);
    let chain = setup(&mut heap);
    let r = Rule::new(&chain, &mut heap).unwrap();
    let mut buf: Vec<u8> = Vec::new();
    r.write(&mut buf, 1, MsgType::Add);
    let rules = list_rules_for_chain(&chain, &vec![buf], &mut heap).unwrap();
    assert!(rules[0].get_userdata().is_none());
}

#[test]
fn embedded_nul_in_userdata_is_rejected_by_parse() {
    let mut heap = Allocator::with_capacity(64);
    let chain = setup(&mut heap);
    let r = Rule::new(&chain, &mut heap).unwrap();
    let mut buf: Vec<u8> = Vec::new();
    r.write(&mut buf, 1, MsgType::Add);

    // splice in a userdata attribute holding an embedded NUL: the
    // zero-terminated native representation cannot carry it
    let mut msg = buf[..16].to_vec();
    msg.extend_from_slice(&[8, 0, 7, 0, b'a', 0, b'b', 0x01]);
    msg.extend_from_slice(&buf[16..]);
    let total = (msg.len() as u32).to_le_bytes();
    msg[..4].copy_from_slice(&total);

    match list_rules_for_chain(&chain, &vec![msg], &mut heap) {
        Err(Error::ParseFailed(code)) => assert!(code < 0),
        _ => panic!("expected ParseFailed"),
    }
}

#[test]
fn whole_rule_round_trips_and_reserializes_identically() {
    let mut heap = Allocator::with_capacity(64);
    let chain = setup(&mut heap);
    let mut r = Rule::new(&chain, &mut heap).unwrap();
    r.set_position(4);
    r.set_handle(900);
    r.set_userdata(&vec![9, 9, 9]);
    let mut buf: Vec<u8> = Vec::new();
    r.write(&mut buf, 3, MsgType::Add);

    let rules = list_rules_for_chain(&chain, &vec![buf.clone()], &mut heap).unwrap();
    let back = &rules[0];
    assert_eq!(back.get_position(), 4);
    assert_eq!(back.get_handle(), 900);
    let mut again: Vec<u8> = Vec::new();
    back.write(&mut again, 3, MsgType::Add);
    assert_eq!(again, buf);
}
