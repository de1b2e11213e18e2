use nvim_gtk::nvim::api_info::NeovimApiInfo;
use nvim_gtk::nvim::client::NeovimClient;
use nvim_gtk::value::Value;

fn info() -> NeovimApiInfo {
    NeovimApiInfo::new(vec![Value::PosInt(1), Value::Pairs(vec![])]).unwrap()
}

fn flags(c: &NeovimClient<u8>) -> (bool, bool, bool) {
    (c.is_uninitialized(), c.is_initializing(), c.is_initialized())
}

#[test]
fn client_status_follows_the_last_setter() {
    let mut c: NeovimClient<u8> = NeovimClient::new();
    assert_eq!(flags(&c), (true, false, false));
    c.set(7);
    c.clear();
    assert_eq!(flags(&c), (true, false, false));
    c.set_in_progress();
    assert_eq!(flags(&c), (false, true, false));
    c.set(9);
    assert_eq!(c.nvim(), Some(9));
    assert_eq!(flags(&c), (false, true, false));
    c.set_initialized(info());
    assert_eq!(flags(&c), (false, false, true));
    assert_eq!(c.api_info().unwrap().channel, 1);
    c.set_error();
    assert_eq!(flags(&c), (false, false, false));
    c.set_in_progress();
    assert_eq!(flags(&c), (false, true, false));
}
