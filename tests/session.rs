use avatar_plugin::session::vkey_name;

#[test]
fn host_key_names() {
    assert_eq!(vkey_name(48), "0");
    assert_eq!(vkey_name(57), "9");
    assert_eq!(vkey_name(65), "a");
    assert_eq!(vkey_name(90), "z");
    assert_eq!(vkey_name(112), "f1");
    assert_eq!(vkey_name(120), "f9");
    assert_eq!(vkey_name(121), "f10");
    assert_eq!(vkey_name(123), "f12");
    assert_eq!(vkey_name(27), "escape");
    assert_eq!(vkey_name(13), "unknown");
}
