use tmuxmux_mobile::config::{default_port, Config, Host};

fn host(label: &str, user: &str, addr: &str) -> Host {
    Host {
        label: label.to_string(),
        host: addr.to_string(),
        username: user.to_string(),
        ..Default::default()
    }
}

#[test]
fn default_host() {
    let h = Host::default();
    assert_eq!(h.port, 22);
    assert_eq!(default_port(), 22);
    assert!(h.label.is_empty() && h.host.is_empty() && h.username.is_empty());
    assert!(h.password.is_empty() && h.private_key.is_empty() && h.key_passphrase.is_empty());
    assert!(h.command.is_empty());
    assert!(Config::default().hosts.is_empty());
}

#[test]
fn display_name_prefers_label() {
    assert_eq!(host("work box", "me", "10.0.0.1").display_name(), "work box");
    assert_eq!(host("  x ", "me", "h").display_name(), "  x ");
}

#[test]
fn display_name_falls_back_to_host() {
    assert_eq!(host("", "me", "10.0.0.1").display_name(), "10.0.0.1");
    assert_eq!(host("", "bob", "example.com").display_name(), "example.com");
    assert_eq!(host(" \t\u{3000}", "me", "h").display_name(), "h");
    assert_eq!(host("", "", "10.0.0.1").display_name(), "10.0.0.1");
    assert_eq!(host("\n", "", "").display_name(), "");
}

#[test]
fn clone_copies_every_field() {
    let mut h = host("l", "u", "h");
    h.port = 2222;
    h.password = "pw".to_string();
    h.private_key = "k".to_string();
    h.key_passphrase = "p".to_string();
    h.command = "ssh jump".to_string();
    let c = h.clone();
    assert_eq!((c.label, c.host, c.port, c.username), ("l".to_string(), "h".to_string(), 2222, "u".to_string()));
    assert_eq!((c.password, c.private_key, c.key_passphrase, c.command), ("pw".to_string(), "k".to_string(), "p".to_string(), "ssh jump".to_string()));
}

#[test]
fn white_space_matches_std() {
    for u in 0u32..=0x10ffff {
        if let Some(c) = char::from_u32(u) {
            assert_eq!(tmuxmux_mobile::text::char_is_whitespace(c), c.is_whitespace(), "{:#x}", u);
        }
    }
}
