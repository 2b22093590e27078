use mountbox::multipath_parser;
use mountbox::path::{is_segment_prefix, join, relativize};

#[test]
fn prefix_matching_is_per_segment() {
    let data = b"/data".to_vec();
    assert!(is_segment_prefix(&data, &b"/data".to_vec()));
    assert!(is_segment_prefix(&data, &b"/data/x".to_vec()));
    assert!(is_segment_prefix(&data, &b"/data/x/y".to_vec()));
    // a raw byte prefix is not a path prefix
    assert!(!is_segment_prefix(&data, &b"/datax".to_vec()));
    assert!(!is_segment_prefix(&data, &b"/dat".to_vec()));
    // the root covers every absolute path
    let root = b"/".to_vec();
    assert!(is_segment_prefix(&root, &b"/anything".to_vec()));
    assert!(is_segment_prefix(&root, &b"/".to_vec()));
}

#[test]
fn relativize_roots_the_suffix() {
    // the path under the prefix starts with `/` and drops the prefix
    assert_eq!(
        relativize(&b"/data".to_vec(), &b"/data/file.txt".to_vec()),
        b"/file.txt".to_vec()
    );
    // the mount point itself becomes the root
    assert_eq!(relativize(&b"/data".to_vec(), &b"/data".to_vec()), b"/".to_vec());
    // under the root mount the path passes unchanged
    assert_eq!(relativize(&b"/".to_vec(), &b"/a/b".to_vec()), b"/a/b".to_vec());
    // a nested occurrence of the prefix text deeper down stays
    assert_eq!(
        relativize(&b"/data".to_vec(), &b"/data/data/x".to_vec()),
        b"/data/x".to_vec()
    );
}

#[test]
fn join_handles_absolute_and_relative() {
    assert_eq!(join(&b"/cwd".to_vec(), &b"rel".to_vec()), b"/cwd/rel".to_vec());
    assert_eq!(join(&b"/".to_vec(), &b"rel".to_vec()), b"/rel".to_vec());
    // an absolute path ignores the base
    assert_eq!(join(&b"/cwd".to_vec(), &b"/abs".to_vec()), b"/abs".to_vec());
}

#[test]
fn multipath_parser_splits_at_first_separator() {
    assert_eq!(
        multipath_parser(&b"/dir:/tmp/sock".to_vec()),
        Some((b"/dir".to_vec(), b"/tmp/sock".to_vec()))
    );
    // only the first separator splits
    assert_eq!(
        multipath_parser(&b"a:b:c".to_vec()),
        Some((b"a".to_vec(), b"b:c".to_vec()))
    );
    assert_eq!(
        multipath_parser(&b":x".to_vec()),
        Some((b"".to_vec(), b"x".to_vec()))
    );
    // a missing separator means a missing dir or socket path
    assert_eq!(multipath_parser(&b"nodirsock".to_vec()), None);
    assert_eq!(multipath_parser(&b"".to_vec()), None);
}

#[test]
fn forged_error_returns_are_negated_codes() {
    assert_eq!(mountbox::errno::syscall_err(13), 13u64.wrapping_neg());
    assert_eq!(mountbox::errno::syscall_err(1), u64::MAX);
    // a backend error code of zero would forge success; it is treated as a
    // malformed response instead
    assert_eq!(mountbox::errno::err_ret(0), 13u64.wrapping_neg());
    assert_eq!(mountbox::errno::err_ret(5), 5u64.wrapping_neg());
}
