use mountbox::mounts::Mounts;
use mountbox::ptrace::fill_image;
use mountbox::sockets::Socket;
use mountbox::state::State;
use mountbox::syscalls::getcwd;

struct DeadSocket {}

impl Socket for DeadSocket {
    fn write(&mut self, _data: &[u8]) {
        panic!("getcwd must not speak to any backend");
    }

    fn read(&mut self) -> Vec<u8> {
        panic!("getcwd must not speak to any backend");
    }
}

#[test]
fn getcwd_should_return_cwd() {
    // a mount is configured, but getcwd never touches it
    let mounts = Mounts::new(vec![(b"/test".to_vec(), DeadSocket {})]).unwrap();
    let state = State::new(mounts, b"/getcwd".to_vec()).unwrap();

    let (bytes, res) = getcwd::handler(&state.cwd);
    assert_eq!(res, 0);

    // what an 8-byte zeroed buffer in the traced process ends up holding
    let buf = fill_image(&bytes, 8);
    assert_eq!(String::from_utf8_lossy(&buf), "/getcwd\0");
}

#[test]
fn getcwd_is_independent_of_mounts() {
    let no_mounts = Mounts::<DeadSocket>::new(vec![]).unwrap();
    let state = State::new(no_mounts, b"/getcwd".to_vec()).unwrap();
    let (bytes, res) = getcwd::handler(&state.cwd);
    assert_eq!(res, 0);
    assert_eq!(bytes, b"/getcwd".to_vec());

    let many = Mounts::new(vec![
        (b"/a".to_vec(), DeadSocket {}),
        (b"/b".to_vec(), DeadSocket {}),
    ])
    .unwrap();
    let state2 = State::new(many, b"/getcwd".to_vec()).unwrap();
    let (bytes2, res2) = getcwd::handler(&state2.cwd);
    assert_eq!(res2, 0);
    assert_eq!(bytes2, b"/getcwd".to_vec());
}

#[test]
fn getcwd_truncates_to_capacity() {
    let mounts = Mounts::<DeadSocket>::new(vec![]).unwrap();
    let state = State::new(mounts, b"/getcwd".to_vec()).unwrap();
    let (bytes, _res) = getcwd::handler(&state.cwd);
    // a 4-byte buffer takes only the first 4 bytes
    let buf = fill_image(&bytes, 4);
    assert_eq!(buf, b"/get".to_vec());
}
