use tmuxmux_mobile::config::{Config, Host};
use tmuxmux_mobile::input::{InputEvent, Key, Modifiers};
use tmuxmux_mobile::model::{AppModel, EditorAction, Effect, HostEditor, Page};
use tmuxmux_mobile::protocol::{FromSsh, ToSsh};
use tmuxmux_mobile::render::Grid;

fn host(label: &str, addr: &str) -> Host {
    Host { label: label.to_string(), host: addr.to_string(), ..Default::default() }
}

fn model() -> AppModel {
    AppModel::new(Config { hosts: vec![host("one", "h1"), host("", "h2")] }, None)
}

const NONE: Modifiers = Modifiers { alt: false, ctrl: false, shift: false };

#[test]
fn starts_on_selector() {
    let m = model();
    assert_eq!(m.status, "Select a host");
    assert!(m.view == Page::Selector);
    assert!(!m.connected && m.connected_idx.is_none() && !m.attached && !m.listed);
    assert_eq!((m.grid_cols, m.grid_rows, m.font_size), (80, 24, 15));
    let m2 = AppModel::new(Config::default(), Some("Imported 2 hosts".to_string()));
    assert_eq!(m2.status, "Imported 2 hosts");
}

#[test]
fn connect_asks_for_sessions() {
    let mut m = model();
    let fx = m.connect_to(1);
    assert_eq!(fx.len(), 2);
    assert!(matches!(&fx[0], Effect::Connect(h) if h.host == "h2"));
    assert!(matches!(fx[1], Effect::Send(ToSsh::ListSessions)));
    assert_eq!(m.status, "Connecting to h2\u{2026}");
    assert!(m.connected && m.connected_idx == Some(1) && !m.listed);
    // Connecting elsewhere drops the live connection first.
    let fx = m.connect_to(0);
    assert_eq!(fx.len(), 4);
    assert!(matches!(fx[0], Effect::Send(ToSsh::Disconnect)));
    assert!(matches!(fx[1], Effect::CloseConnection));
    assert!(matches!(&fx[2], Effect::Connect(h) if h.label == "one"));
    assert_eq!(m.status, "Connecting to one\u{2026}");
    // Out of range: nothing happens.
    assert!(m.connect_to(7).is_empty());
    assert_eq!(m.connected_idx, Some(0));
}

#[test]
fn tapping_connected_host_refreshes() {
    let mut m = model();
    m.select_host(0);
    m.handle_event(FromSsh::SessionList(vec!["main".to_string()]));
    assert!(m.listed);
    let fx = m.select_host(0);
    assert_eq!(fx.len(), 1);
    assert!(matches!(fx[0], Effect::Send(ToSsh::ListSessions)));
    assert!(!m.listed);
}

#[test]
fn attach_then_attached_shows_terminal() {
    let mut m = model();
    assert!(m.attach("main".to_string()).is_empty());
    m.connect_to(0);
    m.grid_changed(&Grid { cols: 100, rows: 30 });
    let fx = m.attach("main".to_string());
    assert_eq!(fx.len(), 2);
    assert!(matches!(fx[0], Effect::ResetParser { rows: 30, cols: 100 }));
    assert!(matches!(&fx[1], Effect::Send(ToSsh::Attach { session, rows: 30, cols: 100 }) if session == "main"));
    assert!(m.view == Page::Terminal && !m.attached);
    m.handle_event(FromSsh::Attached);
    assert!(m.attached);
    assert_eq!(m.status, "Attached: main");
}

#[test]
fn data_is_filtered_for_the_parser() {
    let mut m = model();
    let fx = m.handle_event(FromSsh::Data(b"\x1b(0q".to_vec()));
    let fx2 = m.handle_event(FromSsh::Data(b"x\x1b(Bq".to_vec()));
    let mut all = Vec::new();
    for f in fx.iter().chain(fx2.iter()) {
        match f {
            Effect::Process(b) => all.extend_from_slice(b),
            _ => panic!("unexpected effect"),
        }
    }
    assert_eq!(all, "─│q".as_bytes().to_vec());
}

#[test]
fn status_and_errors() {
    let mut m = model();
    m.handle_event(FromSsh::Status("Connected to h1".to_string()));
    assert_eq!(m.status, "Connected to h1");
    m.handle_event(FromSsh::Error("boom".to_string()));
    assert_eq!(m.status, "\u{26a0} boom");
}

#[test]
fn detach_and_close_return_to_selector() {
    let mut m = model();
    m.connect_to(0);
    m.attach("s".to_string());
    m.handle_event(FromSsh::Attached);
    let fx = m.detach_to_selector();
    assert_eq!(fx.len(), 2);
    assert!(matches!(fx[0], Effect::Send(ToSsh::Detach)));
    assert!(matches!(fx[1], Effect::Send(ToSsh::ListSessions)));
    assert!(m.view == Page::Selector && !m.attached);
    m.attach("s".to_string());
    m.handle_event(FromSsh::Detached);
    assert!(m.view == Page::Selector);
    let fx = m.handle_event(FromSsh::Closed);
    assert!(matches!(fx[0], Effect::CloseConnection));
    assert_eq!(m.status, "Disconnected");
    assert!(!m.connected && m.connected_idx.is_none());
}

#[test]
fn create_session_trims_and_clears() {
    let mut m = model();
    m.connect_to(0);
    m.new_session = "   ".to_string();
    assert!(m.create_session().is_empty());
    m.new_session = "  work ".to_string();
    let fx = m.create_session();
    assert!(matches!(&fx[1], Effect::Send(ToSsh::Attach { session, .. }) if session == "work"));
    assert_eq!(m.new_session, "");
    assert_eq!(m.attached_session, "work");
}

#[test]
fn editor_save_delete_cancel() {
    let mut m = model();
    m.add_host();
    assert!(matches!(&m.editor, Some(e) if e.index.is_none() && e.host.port == 22));
    let fx = m.finish_editor(HostEditor { index: None, host: host("new", "h3") }, Some(EditorAction::Save), true);
    assert!(matches!(fx[0], Effect::SaveConfig));
    assert_eq!(m.config.hosts.len(), 3);
    assert_eq!(m.config.hosts[2].label, "new");
    m.edit_host(0);
    assert!(matches!(&m.editor, Some(e) if e.index == Some(0) && e.host.label == "one"));
    m.finish_editor(HostEditor { index: Some(0), host: host("uno", "h1") }, Some(EditorAction::Save), true);
    assert_eq!(m.config.hosts[0].label, "uno");
    assert!(m.editor.is_none());
    let fx = m.finish_editor(HostEditor { index: Some(1), host: host("", "h2") }, Some(EditorAction::Delete), true);
    assert_eq!(fx.len(), 1);
    assert_eq!(m.config.hosts.len(), 2);
    assert_eq!(m.config.hosts[1].label, "new");
    let fx = m.finish_editor(HostEditor { index: Some(9), host: Host::default() }, Some(EditorAction::Delete), true);
    assert!(fx.is_empty());
    assert!(m.finish_editor(HostEditor { index: None, host: Host::default() }, Some(EditorAction::Cancel), true).is_empty());
    assert_eq!(m.config.hosts.len(), 2);
    m.finish_editor(HostEditor { index: None, host: host("keep", "") }, None, true);
    assert!(matches!(&m.editor, Some(e) if e.host.label == "keep"));
    m.finish_editor(HostEditor { index: None, host: host("gone", "") }, None, false);
    assert!(m.editor.is_none());
}

#[test]
fn font_size_is_bounded() {
    let mut m = model();
    for _ in 0..40 {
        m.font_larger();
    }
    assert_eq!(m.font_size, 32);
    for _ in 0..40 {
        m.font_smaller();
    }
    assert_eq!(m.font_size, 8);
    m.font_larger();
    assert_eq!(m.font_size, 9);
}

#[test]
fn grid_change_resizes_remote_only_when_attached() {
    let mut m = model();
    assert!(m.grid_changed(&Grid { cols: 80, rows: 24 }).is_empty());
    let fx = m.grid_changed(&Grid { cols: 90, rows: 24 });
    assert_eq!(fx.len(), 1);
    assert!(matches!(fx[0], Effect::ResizeParser { rows: 24, cols: 90 }));
    m.connect_to(0);
    m.attach("s".to_string());
    m.handle_event(FromSsh::Attached);
    let fx = m.grid_changed(&Grid { cols: 90, rows: 40 });
    assert_eq!(fx.len(), 2);
    assert!(matches!(fx[1], Effect::Send(ToSsh::Resize { rows: 40, cols: 90 })));
    assert_eq!((m.grid_cols, m.grid_rows), (90, 40));
}

#[test]
fn terminal_input_is_sent_when_connected() {
    let mut m = model();
    let events = vec![InputEvent::Key { key: Key::Enter, pressed: true, modifiers: NONE }];
    assert!(m.terminal_input(&events, NONE, false, false).is_empty());
    m.connect_to(0);
    let fx = m.terminal_input(&events, NONE, false, false);
    assert!(matches!(&fx[0], Effect::Send(ToSsh::Input(b)) if b == &vec![b'\r']));
    assert!(m.terminal_input(&vec![InputEvent::Other], NONE, false, false).is_empty());
    assert_eq!(m.repaint_after_ms(), 16);
    m.disconnect();
    assert_eq!(m.repaint_after_ms(), 250);
}

#[test]
fn connected_marker_matches_live_connection() {
    let mut m = model();
    let ok = |m: &AppModel| m.connected == m.connected_idx.is_some();
    assert!(ok(&m));
    m.connect_to(1);
    assert!(ok(&m));
    m.select_host(1);
    assert!(ok(&m));
    m.handle_event(FromSsh::SessionList(vec![]));
    assert!(ok(&m));
    m.handle_event(FromSsh::Closed);
    assert!(ok(&m));
    m.select_host(0);
    m.disconnect();
    assert!(ok(&m));
    assert!(m.connect_to(5).is_empty());
    assert!(ok(&m));
}
