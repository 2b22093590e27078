use mountbox::fd_allocator::FdAllocator;

#[test]
fn release_in_any_order_leaves_table_empty() {
    let mut table = FdAllocator::new();
    table.set_current_mountpoint(&b"/data".to_vec());
    let a = table.allocate_fd(&b"ida".to_vec()).unwrap();
    let b = table.allocate_fd(&b"idb".to_vec()).unwrap();
    let c = table.allocate_fd(&b"idc".to_vec()).unwrap();
    assert!(table.get_desc_for_fd(a).is_some());
    assert!(table.get_desc_for_fd(b).is_some());
    assert!(table.get_desc_for_fd(c).is_some());

    // release in an order other than allocation
    table.drop_fd(b);
    table.drop_fd(c);
    table.drop_fd(a);

    // looking a released id up finds nothing
    assert!(table.get_desc_for_fd(a).is_none());
    assert!(table.get_desc_for_fd(b).is_none());
    assert!(table.get_desc_for_fd(c).is_none());

    // each released id is eligible for reuse: a fresh allocation succeeds
    // and lands on one of the numbers just given back
    let again = table.allocate_fd(&b"idd".to_vec()).unwrap();
    assert!(again == a || again == b || again == c);
    table.drop_fd(again);
}

#[test]
fn release_is_idempotent() {
    let mut table = FdAllocator::new();
    table.set_current_mountpoint(&b"/data".to_vec());
    let a = table.allocate_fd(&b"id".to_vec()).unwrap();
    table.drop_fd(a);
    // releasing an id that is not present is a no-op
    table.drop_fd(a);
    assert!(table.get_desc_for_fd(a).is_none());
}

#[test]
fn allocated_fd_is_a_real_reserved_slot() {
    let mut table = FdAllocator::new();
    table.set_current_mountpoint(&b"/data".to_vec());
    let a = table.allocate_fd(&b"id".to_vec()).unwrap();
    // while allocated, the number is an open descriptor of this process
    assert!(nix::fcntl::fcntl(a.into(), nix::fcntl::FcntlArg::F_GETFL).is_ok());
    table.drop_fd(a);
    // once released, the slot has been given back
    assert_eq!(
        nix::fcntl::fcntl(a.into(), nix::fcntl::FcntlArg::F_GETFL),
        Err(nix::errno::Errno::EBADF)
    );
}

#[test]
fn descriptor_records_id_and_mount() {
    let mut table = FdAllocator::new();
    table.set_current_mountpoint(&b"/data".to_vec());
    let a = table.allocate_fd(&b"backend-id".to_vec()).unwrap();
    let d = table.get_desc_for_fd(a).unwrap();
    assert_eq!(d.fd, a);
    assert_eq!(d.id, b"backend-id".to_vec());
    assert_eq!(d.mountpoint, b"/data".to_vec());
    table.drop_fd(a);
}

#[test]
fn teardown_releases_everything() {
    let mut table = FdAllocator::new();
    table.set_current_mountpoint(&b"/data".to_vec());
    let a = table.allocate_fd(&b"x".to_vec()).unwrap();
    let b = table.allocate_fd(&b"y".to_vec()).unwrap();
    table.release_all();
    assert!(table.get_desc_for_fd(a).is_none());
    assert!(table.get_desc_for_fd(b).is_none());
    assert_eq!(
        nix::fcntl::fcntl(a.into(), nix::fcntl::FcntlArg::F_GETFL),
        Err(nix::errno::Errno::EBADF)
    );
    assert_eq!(
        nix::fcntl::fcntl(b.into(), nix::fcntl::FcntlArg::F_GETFL),
        Err(nix::errno::Errno::EBADF)
    );
}
