use nftnl::Error;
use nftnl::ProtoFamily;
use nftnl::chain::Chain;
use nftnl::expr::VerbatimExpr;
use nftnl::handle::Allocator;
use nftnl::rule::Rule;
use nftnl::table::Table;

fn setup(heap: &mut Allocator) -> Chain {
    let table = Table::new(ProtoFamily::Ipv4, b"filter".to_vec(), heap).unwrap();
    Chain::new(&table, b"input".to_vec(), heap).unwrap()
}

#[test]
fn new_rule_snapshots_chain_identity() {
    let mut heap = Allocator::with_capacity(16);
    let mut chain = setup(&mut heap);
    let rule = Rule::new(&chain, &mut heap).unwrap();

    // mutate the chain afterward: the rule's snapshot must not move
    chain.set_attach_point(1, -100);
    chain.set_policy(0);

    let mut buf: Vec<u8> = Vec::new();
    rule.write(&mut buf, 1, nftnl::MsgType::Add);
    // family snapshot in the header
    assert_eq!(&buf[6..8], &[2, 0]);
    // first attribute: table name, zero-terminated
    assert_eq!(&buf[16..20], &[11, 0, 1, 0]);
    assert_eq!(&buf[20..27], b"filter\0");
    // second attribute (after one padding byte): chain name
    assert_eq!(&buf[28..32], &[10, 0, 2, 0]);
    assert_eq!(&buf[32..38], b"input\0");
}

#[test]
fn getters_and_setters_roundtrip() {
    let mut heap = Allocator::with_capacity(16);
    let chain = setup(&mut heap);
    let mut rule = Rule::new(&chain, &mut heap).unwrap();

    assert_eq!(rule.get_position(), 0);
    assert_eq!(rule.get_handle(), 0);
    rule.set_position(77);
    rule.set_handle(12345);
    assert_eq!(rule.get_position(), 77);
    assert_eq!(rule.get_handle(), 12345);

    assert!(rule.get_userdata().is_none());
    let data = vec![1u8, 2, 3, 255];
    rule.set_userdata(&data);
    assert_eq!(rule.get_userdata().unwrap(), &data);
}

#[test]
fn get_chain_returns_owning_chain() {
    let mut heap = Allocator::with_capacity(16);
    let chain = setup(&mut heap);
    let rule = Rule::new(&chain, &mut heap).unwrap();
    let back = rule.get_chain();
    assert_eq!(back.get_name(), chain.get_name());
    assert_eq!(back.get_table().get_family(), ProtoFamily::Ipv4);
}

#[test]
fn raw_handle_accessors_agree() {
    let mut heap = Allocator::with_capacity(16);
    let chain = setup(&mut heap);
    let mut rule = Rule::new(&chain, &mut heap).unwrap();
    let p = rule.as_ptr();
    assert_eq!(rule.as_mut_ptr(), p);
}

#[test]
fn equality_needs_kernel_handle() {
    let mut heap = Allocator::with_capacity(16);
    let chain = setup(&mut heap);
    let a = Rule::new(&chain, &mut heap).unwrap();
    let b = Rule::new(&chain, &mut heap).unwrap();

    // distinct unconfirmed rules from the same chain are never equal
    assert!(a != b);
    // but each is equal to itself
    assert!(a == a);
    assert!(b == b);
}

#[test]
fn equality_by_chain_and_handle() {
    let mut heap = Allocator::with_capacity(16);
    let chain = setup(&mut heap);
    let other_chain = {
        let t = Table::new(ProtoFamily::Ipv4, b"filter".to_vec(), &mut heap).unwrap();
        Chain::new(&t, b"input".to_vec(), &mut heap).unwrap()
    };
    let mut a = Rule::new(&chain, &mut heap).unwrap();
    let mut b = Rule::new(&chain, &mut heap).unwrap();
    let mut c = Rule::new(&chain, &mut heap).unwrap();
    let mut d = Rule::new(&other_chain, &mut heap).unwrap();

    a.set_handle(9);
    b.set_handle(9);
    c.set_handle(9);
    d.set_handle(9);

    // reflexive, symmetric, transitive on kernel-confirmed rules
    assert!(a == a);
    assert!(a == b && b == a);
    assert!(a == b && b == c && a == c);
    // a structurally identical rule of another chain is a different rule
    assert!(a != d);
    // different handles differ
    b.set_handle(10);
    assert!(a != b);
}

#[test]
fn allocation_failure_fails_construction() {
    let mut heap = Allocator::with_capacity(3);
    let table = Table::new(ProtoFamily::Inet, b"nat".to_vec(), &mut heap).unwrap();
    let chain = Chain::new(&table, b"postrouting".to_vec(), &mut heap).unwrap();
    let _first = Rule::new(&chain, &mut heap).unwrap();

    // the budget is spent: the simulated allocator now returns null
    match Rule::new(&chain, &mut heap) {
        Err(Error::AllocationFailed) => {},
        _ => panic!("expected AllocationFailed"),
    }
    // the failure left no partially constructed wrapper behind and the
    // allocator state untouched: it keeps failing the same way
    match Rule::new(&chain, &mut heap) {
        Err(Error::AllocationFailed) => {},
        _ => panic!("expected AllocationFailed"),
    }
}

#[test]
fn exhausted_allocator_fails_table_and_chain() {
    let mut heap = Allocator::exhausted();
    match Table::new(ProtoFamily::Ipv6, b"t".to_vec(), &mut heap) {
        Err(Error::AllocationFailed) => {},
        _ => panic!("expected AllocationFailed"),
    }
    let mut heap2 = Allocator::with_capacity(1);
    let table = Table::new(ProtoFamily::Ipv6, b"t".to_vec(), &mut heap2).unwrap();
    match Chain::new(&table, b"c".to_vec(), &mut heap2) {
        Err(Error::AllocationFailed) => {},
        _ => panic!("expected AllocationFailed"),
    }
}

#[test]
fn add_expr_is_append_only_in_order() {
    let mut heap = Allocator::with_capacity(16);
    let chain = setup(&mut heap);
    let mut rule = Rule::new(&chain, &mut heap).unwrap();

    let m1 = VerbatimExpr::new(vec![0xAA]);
    let m2 = VerbatimExpr::new(vec![0xBB, 0xBC]);
    let m3 = VerbatimExpr::new(vec![0xCD, 0xCE, 0xCF]);
    rule.add_expr(&m1);
    rule.add_expr(&m2);
    rule.add_expr(&m3);

    let mut buf: Vec<u8> = Vec::new();
    rule.write(&mut buf, 1, nftnl::MsgType::Add);

    let find = |needle: &[u8]| -> usize {
        buf.windows(needle.len())
            .position(|w| w == needle)
            .expect("marker missing from serialized payload")
    };
    let p1 = find(&[0xAA]);
    let p2 = find(&[0xBB, 0xBC]);
    let p3 = find(&[0xCD, 0xCE, 0xCF]);
    // three markers, serialized contiguously in call order
    assert_eq!(p2, p1 + 1);
    assert_eq!(p3, p2 + 2);
}

#[test]
fn get_str_renders_names_and_numbers() {
    let mut heap = Allocator::with_capacity(16);
    let chain = setup(&mut heap);
    let mut rule = Rule::new(&chain, &mut heap).unwrap();
    rule.set_handle(42);
    rule.set_position(18446744073709551615);
    let s = rule.get_str();
    assert_eq!(s, b"filter input handle 42 position 18446744073709551615".to_vec());
    assert!(s.len() < 4096);
}

#[test]
fn proto_family_wire_values() {
    assert_eq!(ProtoFamily::Inet.value(), 1);
    assert_eq!(ProtoFamily::Ipv4.value(), 2);
    assert_eq!(ProtoFamily::Arp.value(), 3);
    assert_eq!(ProtoFamily::NetDev.value(), 5);
    assert_eq!(ProtoFamily::Bridge.value(), 7);
    assert_eq!(ProtoFamily::Ipv6.value(), 10);
}
