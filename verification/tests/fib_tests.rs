use icn_core::fib::{FibEntry, ForwardingInformationBase, SocketAddress};

fn local(port: u16) -> SocketAddress {
    SocketAddress::V4 { ip: 0x7f00_0001, port }
}

#[test]
fn test_fib() {
    let mut fib = ForwardingInformationBase::new();
    let addr1 = local(8000);
    let addr2 = local(8001);

    fib.add_entry("/test".to_string(), addr1);
    fib.add_entry("/test/nested".to_string(), addr2);

    assert_eq!(fib.get_next_hops("/test").unwrap().len(), 1);
    assert_eq!(fib.get_next_hops("/test/nested").unwrap().len(), 1);

    let longest_match = fib.longest_prefix_match("/test/nested/deep");
    assert!(longest_match.is_some());
    assert_eq!(longest_match.unwrap().name, "/test/nested");
}

#[test]
fn fib_adds_each_hop_once() {
    let mut fib = ForwardingInformationBase::new();
    fib.add_entry("/a".to_string(), local(1));
    fib.add_entry("/a".to_string(), local(1));
    fib.add_entry("/a".to_string(), local(2));
    assert_eq!(fib.get_next_hops("/a").unwrap(), &vec![local(1), local(2)]);
}

#[test]
fn fib_without_matching_prefix_finds_nothing() {
    let mut fib = ForwardingInformationBase::new();
    assert!(fib.is_empty());
    fib.add_entry("/x".to_string(), local(1));
    assert!(fib.longest_prefix_match("/y/z").is_none());
    fib.remove_entry("/x");
    assert!(fib.is_empty());
    assert!(fib.get_next_hops("/x").is_none());
}

#[test]
fn fib_entry_removes_every_copy_of_a_hop() {
    let mut e = FibEntry::new("/n".to_string(), local(1));
    e.add_next_hop(local(2));
    e.remove_next_hop(&local(1));
    assert_eq!(e.next_hops, vec![local(2)]);
}
