use varmint::keymap::{linux_key, HostKey};

#[test]
fn host_keys_map_to_linux_codes() {
    assert_eq!(linux_key(HostKey::Escape), 1);
    assert_eq!(linux_key(HostKey::KeyA), 30);
    assert_eq!(linux_key(HostKey::F12), 88);
    assert_eq!(linux_key(HostKey::NumpadEnter), 96);
    assert_eq!(linux_key(HostKey::Delete), 111);
}
