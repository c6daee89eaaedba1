//! The app's state and the decisions behind its two views: a session
//! selector and a terminal, toggled (never shown together, per the mobile
//! design).
//!
//! The UI calls these methods when the user acts or the connection reports,
//! and carries out the [`Effect`]s they return: opening and closing the
//! connection, sending it commands, driving the terminal parser and saving
//! the configuration.
use vstd::prelude::*;

use crate::acs::{initial_state, run_output, run_state, AcsFilter};
use crate::config::{display_name_of, Config, Host};
use crate::input::{encode_input, events_bytes, InputEvent, Modifiers};
use crate::protocol::{FromSsh, ToSsh};
use crate::render::Grid;
use crate::text::{blank, chars_of, is_blank, string_from, trim, trim_bounds};

verus! {

/// Which of the two views is shown.
#[derive(Clone, Copy, PartialEq, Eq, Debug, Structural)]
pub enum Page {
    Selector,
    Terminal,
}

/// The add/edit-host form, when open.
pub struct HostEditor {
    /// Index being edited, or None for a new host.
    pub index: Option<usize>,
    pub host: Host,
}

/// The button pressed in the host form.
#[derive(Clone, Copy, PartialEq, Eq, Debug, Structural)]
pub enum EditorAction {
    Save,
    Delete,
    Cancel,
}

/// Something the UI must do on the model's behalf.
pub enum Effect {
    /// Open a connection to the host (the new live connection).
    Connect(Host),
    /// Send a command to the live connection.
    Send(ToSsh),
    /// Drop the live connection.
    CloseConnection,
    /// Replace the terminal parser by a fresh one of this size.
    ResetParser { rows: u16, cols: u16 },
    /// Feed these (already ACS-translated) bytes to the terminal parser.
    Process(Vec<u8>),
    /// Resize the terminal parser's screen.
    ResizeParser { rows: u16, cols: u16 },
    /// Write the configuration to disk.
    SaveConfig,
}

/// The app state.
pub struct AppModel {
    pub config: Config,
    pub view: Page,
    /// A connection is live.
    pub connected: bool,
    /// Which configured host the live connection belongs to.
    pub connected_idx: Option<usize>,
    pub status: String,
    pub sessions: Vec<String>,
    /// True once we've received a session list for the current connection.
    pub listed: bool,
    /// The ACS filter in front of the terminal parser.
    pub acs: AcsFilter,
    pub attached: bool,
    pub attached_session: String,
    pub grid_cols: usize,
    pub grid_rows: usize,
    pub font_size: u8,
    pub editor: Option<HostEditor>,
    pub new_session: String,
}

/// The effects of dropping the live connection, if there is one: tell it to
/// disconnect, then let it go.
pub open spec fn disconnect_effects(connected: bool) -> Seq<Effect> {
    if connected {
        seq![Effect::Send(ToSsh::Disconnect), Effect::CloseConnection]
    } else {
        Seq::empty()
    }
}

/// The smallest and largest terminal font sizes.
pub open spec fn min_font() -> u8 {
    8
}

pub open spec fn max_font() -> u8 {
    32
}

/// `b` has `a`'s terminal state: the ACS filter, the attached session's
/// name, the grid and the font size.
pub open spec fn keeps_terminal(a: AppModel, b: AppModel) -> bool {
    &&& b.acs == a.acs
    &&& b.attached_session == a.attached_session
    &&& b.grid_cols == a.grid_cols
    &&& b.grid_rows == a.grid_rows
    &&& b.font_size == a.font_size
}

/// `b` has `a`'s configuration and forms.
pub open spec fn keeps_forms(a: AppModel, b: AppModel) -> bool {
    &&& b.config == a.config
    &&& b.editor == a.editor
    &&& b.new_session == a.new_session
}

/// `b` has `a`'s connection state: the live connection, its host and its
/// session list.
pub open spec fn keeps_connection(a: AppModel, b: AppModel) -> bool {
    &&& b.connected == a.connected
    &&& b.connected_idx == a.connected_idx
    &&& b.sessions == a.sessions
    &&& b.listed == a.listed
}

/// The selector marks a host as connected exactly when a connection is live.
pub open spec fn consistent(m: AppModel) -> bool {
    m.connected == (m.connected_idx is Some)
}

/// A host as the "+ Host" form starts: every text field empty, port 22.
pub open spec fn is_default_host(h: Host) -> bool {
    &&& h.label@.len() == 0
    &&& h.host@.len() == 0
    &&& h.port == crate::config::spec_default_port()
    &&& h.username@.len() == 0
    &&& h.password@.len() == 0
    &&& h.private_key@.len() == 0
    &&& h.key_passphrase@.len() == 0
    &&& h.command@.len() == 0
}

/// What connecting to host `idx` does, from model `a` to model `b` with
/// `effects`: drop any live connection, open one to the host and ask it for
/// its sessions, with the status saying so.
pub open spec fn connects(a: AppModel, idx: usize, effects: Seq<Effect>, b: AppModel) -> bool {
    let host = a.config.hosts@[idx as int];
    &&& idx < a.config.hosts@.len()
    &&& effects == disconnect_effects(a.connected) + seq![
        Effect::Connect(host),
        Effect::Send(ToSsh::ListSessions),
    ]
    &&& b.connected
    &&& b.connected_idx == Some(idx)
    &&& b.status@ == "Connecting to "@ + display_name_of(host.label@, host.host@)
        + "\u{2026}"@
    &&& b.sessions@.len() == 0
    &&& !b.listed
    &&& !b.attached
    &&& b.view == a.view
    &&& keeps_terminal(a, b)
    &&& keeps_forms(a, b)
}

/// What attaching to `session` does, from model `a` to model `b` with
/// `effects`, leaving aside the new-session field: a fresh parser and ACS
/// filter sized to the grid, the attach command, and the terminal view
/// (attached once the connection confirms). Without a live connection
/// nothing happens.
pub open spec fn attach_step(a: AppModel, session: Seq<char>, effects: Seq<Effect>, b: AppModel) -> bool {
    &&& b.config == a.config
    &&& b.editor == a.editor
    &&& b.status == a.status
    &&& b.grid_cols == a.grid_cols
    &&& b.grid_rows == a.grid_rows
    &&& b.font_size == a.font_size
    &&& keeps_connection(a, b)
    &&& if !a.connected {
        &&& effects.len() == 0
        &&& b.view == a.view
        &&& b.attached == a.attached
        &&& b.acs == a.acs
        &&& b.attached_session == a.attached_session
    } else {
        let rows = a.grid_rows as u16;
        let cols = a.grid_cols as u16;
        &&& effects.len() == 2
        &&& effects[0] == Effect::ResetParser { rows, cols }
        &&& effects[1] matches Effect::Send(ToSsh::Attach { session: s, rows: r, cols: c }) && s@
            == session && r == rows && c == cols
        &&& b.acs@ == initial_state()
        &&& b.attached_session@ == session
        &&& !b.attached
        &&& b.view == Page::Terminal
    }
}

/// What attaching to `session` does (see [`attach_step`]); the new-session
/// field is left alone.
pub open spec fn attaches(a: AppModel, session: Seq<char>, effects: Seq<Effect>, b: AppModel) -> bool {
    &&& attach_step(a, session, effects, b)
    &&& b.new_session == a.new_session
}

/// What one event from the connection does, from model `a` to model `b`
/// with `effects`.
pub open spec fn event_applied(a: AppModel, ev: FromSsh, effects: Seq<Effect>, b: AppModel) -> bool {
    match ev {
        FromSsh::Status(s) => {
            &&& effects.len() == 0
            &&& b.status == s
            &&& b.view == a.view
            &&& b.attached == a.attached
            &&& keeps_connection(a, b)
            &&& keeps_terminal(a, b)
            &&& keeps_forms(a, b)
        },
        FromSsh::Error(e) => {
            &&& effects.len() == 0
            &&& b.status@ == "\u{26a0} "@ + e@
            &&& b.view == a.view
            &&& b.attached == a.attached
            &&& keeps_connection(a, b)
            &&& keeps_terminal(a, b)
            &&& keeps_forms(a, b)
        },
        FromSsh::SessionList(list) => {
            &&& effects.len() == 0
            &&& b.sessions == list
            &&& b.listed
            &&& b.connected == a.connected
            &&& b.connected_idx == a.connected_idx
            &&& b.status == a.status
            &&& b.view == a.view
            &&& b.attached == a.attached
            &&& keeps_terminal(a, b)
            &&& keeps_forms(a, b)
        },
        FromSsh::Attached => {
            &&& effects.len() == 0
            &&& b.attached
            &&& b.status@ == "Attached: "@ + a.attached_session@
            &&& b.view == a.view
            &&& keeps_connection(a, b)
            &&& keeps_terminal(a, b)
            &&& keeps_forms(a, b)
        },
        FromSsh::Data(bytes) => {
            &&& effects.len() == 1
            &&& effects[0] matches Effect::Process(out) && out@ == run_output(a.acs@, bytes@)
            &&& b.acs@ == run_state(a.acs@, bytes@)
            &&& b.status == a.status
            &&& b.view == a.view
            &&& b.attached == a.attached
            &&& b.attached_session == a.attached_session
            &&& b.grid_cols == a.grid_cols
            &&& b.grid_rows == a.grid_rows
            &&& b.font_size == a.font_size
            &&& keeps_connection(a, b)
            &&& keeps_forms(a, b)
        },
        FromSsh::Detached => {
            &&& effects.len() == 0
            &&& !b.attached
            &&& b.view == Page::Selector
            &&& b.status == a.status
            &&& keeps_connection(a, b)
            &&& keeps_terminal(a, b)
            &&& keeps_forms(a, b)
        },
        FromSsh::Closed => {
            &&& effects == seq![Effect::CloseConnection]
            &&& b.status@ == "Disconnected"@
            &&& !b.connected
            &&& b.connected_idx is None
            &&& !b.attached
            &&& b.view == Page::Selector
            &&& b.sessions == a.sessions
            &&& b.listed == a.listed
            &&& keeps_terminal(a, b)
            &&& keeps_forms(a, b)
        },
    }
}

/// Tapping a session and then hearing from the connection that the PTY is
/// attached leaves the terminal view showing that session as attached, with
/// a fresh ACS filter.
pub proof fn lemma_attach_then_attached(
    a: AppModel,
    session: Seq<char>,
    e1: Seq<Effect>,
    b: AppModel,
    e2: Seq<Effect>,
    c: AppModel,
)
    requires
        a.connected,
        attaches(a, session, e1, b),
        event_applied(b, FromSsh::Attached, e2, c),
    ensures
        c.attached,
        c.view == Page::Terminal,
        c.status@ == "Attached: "@ + session,
        c.acs@ == initial_state(),
        c.connected,
{
}

/// PTY output that arrives in two pieces is translated as if it had arrived
/// in one: the bytes fed to the parser are the same, and the filter ends in
/// the same state.
pub proof fn lemma_data_in_pieces(
    a: AppModel,
    x: Vec<u8>,
    e1: Seq<Effect>,
    b: AppModel,
    y: Vec<u8>,
    e2: Seq<Effect>,
    c: AppModel,
)
    requires
        event_applied(a, FromSsh::Data(x), e1, b),
        event_applied(b, FromSsh::Data(y), e2, c),
    ensures
        e1[0] matches Effect::Process(o1) && e2[0] matches Effect::Process(o2) && o1@ + o2@
            == run_output(a.acs@, x@ + y@),
        c.acs@ == run_state(a.acs@, x@ + y@),
{
    crate::acs::lemma_run_concat(a.acs@, x@, y@);
}

impl AppModel {
    /// A fresh model: the selector, no connection, an 80x24 terminal. The
    /// status shows the import message, if a host file was imported.
    pub fn new(config: Config, import_status: Option<String>) -> (m: Self)
        ensures
            consistent(m),
            m.config == config,
            m.view == Page::Selector,
            !m.connected,
            m.connected_idx is None,
            m.status@ == match import_status {
                Some(s) => s@,
                None => "Select a host"@,
            },
            m.sessions@.len() == 0,
            !m.listed,
            m.acs@ == initial_state(),
            !m.attached,
            m.attached_session@.len() == 0,
            m.grid_cols == 80,
            m.grid_rows == 24,
            m.font_size == 15,
            m.editor is None,
            m.new_session@.len() == 0,
    {
        let status = match import_status {
            Some(s) => s,
            None => String::from_str("Select a host"),
        };
        AppModel {
            config,
            view: Page::Selector,
            connected: false,
            connected_idx: None,
            status,
            sessions: Vec::new(),
            listed: false,
            acs: AcsFilter::new(),
            attached: false,
            attached_session: String::new(),
            grid_cols: 80,
            grid_rows: 24,
            font_size: 15,
            editor: None,
            new_session: String::new(),
        }
    }

    /// Drop the live connection (telling it to disconnect first).
    pub fn disconnect(&mut self) -> (effects: Vec<Effect>)
        ensures
            consistent(*old(self)) ==> consistent(*final(self)),
            effects@ == disconnect_effects(old(self).connected),
            !final(self).connected,
            final(self).connected_idx is None,
            !final(self).attached,
            !final(self).listed,
            final(self).sessions == old(self).sessions,
            final(self).status == old(self).status,
            final(self).view == old(self).view,
            keeps_terminal(*old(self), *final(self)),
            keeps_forms(*old(self), *final(self)),
    {
        let mut effects: Vec<Effect> = Vec::new();
        if self.connected {
            effects.push(Effect::Send(ToSsh::Disconnect));
            effects.push(Effect::CloseConnection);
        }
        self.connected = false;
        self.connected_idx = None;
        self.attached = false;
        self.listed = false;
        effects
    }

    /// Connect to host `idx`, dropping any live connection, and ask it for
    /// its sessions. Nothing happens for an index past the host list.
    pub fn connect_to(&mut self, idx: usize) -> (effects: Vec<Effect>)
        ensures
            consistent(*old(self)) ==> consistent(*final(self)),
            idx >= old(self).config.hosts@.len() ==> effects@.len() == 0 && *final(self) == *old(
                self,
            ),
            idx < old(self).config.hosts@.len() ==> connects(
                *old(self),
                idx,
                effects@,
                *final(self),
            ),
    {
        if idx >= self.config.hosts.len() {
            return Vec::new();
        }
        let host = self.config.hosts[idx].clone();
        let mut effects = self.disconnect();
        let mut status = String::from_str("Connecting to ");
        let name = host.display_name();
        status.append(name.as_str());
        status.append("\u{2026}");
        self.status = status;
        self.sessions = Vec::new();
        self.listed = false;
        self.connected_idx = Some(idx);
        let ghost e0 = effects@;
        effects.push(Effect::Connect(host));
        effects.push(Effect::Send(ToSsh::ListSessions));
        self.connected = true;
        assert(effects@ =~= e0 + seq![Effect::Connect(host), Effect::Send(ToSsh::ListSessions)]);
        assert(keeps_terminal(*old(self), *self));
        assert(keeps_forms(*old(self), *self));
        effects
    }

    /// Tapping host `i` in the selector: the connected host refreshes its
    /// session list; any other host is connected to.
    pub fn select_host(&mut self, i: usize) -> (effects: Vec<Effect>)
        ensures
            consistent(*old(self)) ==> consistent(*final(self)),
            old(self).connected_idx == Some(i) ==> {
                &&& effects@ == if old(self).connected {
                    seq![Effect::Send(ToSsh::ListSessions)]
                } else {
                    Seq::<Effect>::empty()
                }
                &&& final(self).listed == (old(self).listed && !old(self).connected)
                &&& *final(self) == (AppModel { listed: final(self).listed, ..*old(self) })
            },
            old(self).connected_idx != Some(i) && i >= old(self).config.hosts@.len() ==> effects@.len()
                == 0 && *final(self) == *old(self),
            old(self).connected_idx != Some(i) && i < old(self).config.hosts@.len() ==> connects(
                *old(self),
                i,
                effects@,
                *final(self),
            ),
    {
        if self.connected_idx == Some(i) {
            let mut effects: Vec<Effect> = Vec::new();
            if self.connected {
                self.listed = false;
                effects.push(Effect::Send(ToSsh::ListSessions));
            }
            effects
        } else {
            self.connect_to(i)
        }
    }

    /// Attach to (or create) `session` on the live connection.
    pub fn attach(&mut self, session: String) -> (effects: Vec<Effect>)
        ensures
            consistent(*old(self)) ==> consistent(*final(self)),
            attaches(*old(self), session@, effects@, *final(self)),
    {
        if !self.connected {
            return Vec::new();
        }
        let rows = self.grid_rows as u16;
        let cols = self.grid_cols as u16;
        let mut effects: Vec<Effect> = Vec::new();
        // Fresh parser sized to the current grid.
        effects.push(Effect::ResetParser { rows, cols });
        self.acs = AcsFilter::new();
        effects.push(Effect::Send(ToSsh::Attach { session: session.clone(), rows, cols }));
        self.attached_session = session;
        // Set true once the connection confirms.
        self.attached = false;
        self.view = Page::Terminal;
        effects
    }

    /// The "create" button: when the new-session field is not blank, clear
    /// it and attach to the session it names (trimmed).
    pub fn create_session(&mut self) -> (effects: Vec<Effect>)
        ensures
            consistent(*old(self)) ==> consistent(*final(self)),
            is_blank(old(self).new_session@) ==> effects@.len() == 0 && *final(self) == *old(self),
            !is_blank(old(self).new_session@) ==> {
                &&& attach_step(*old(self), trim(old(self).new_session@), effects@, *final(self))
                &&& final(self).new_session@.len() == 0
            },
    {
        if blank(self.new_session.as_str()) {
            return Vec::new();
        }
        let v = chars_of(self.new_session.as_str());
        let (a, b) = trim_bounds(&v, 0, v.len());
        assert(v@.subrange(0, v@.len() as int) =~= self.new_session@);
        let name = string_from(&v, a, b);
        self.new_session = String::new();
        self.attach(name)
    }

    /// The "Sessions" button: detach (the tmux session keeps running on the
    /// server), go back to the selector and refresh the session list.
    pub fn detach_to_selector(&mut self) -> (effects: Vec<Effect>)
        ensures
            consistent(*old(self)) ==> consistent(*final(self)),
            effects@ == if old(self).connected {
                seq![Effect::Send(ToSsh::Detach), Effect::Send(ToSsh::ListSessions)]
            } else {
                Seq::<Effect>::empty()
            },
            !final(self).attached,
            final(self).view == Page::Selector,
            final(self).status == old(self).status,
            keeps_connection(*old(self), *final(self)),
            keeps_terminal(*old(self), *final(self)),
            keeps_forms(*old(self), *final(self)),
    {
        let mut effects: Vec<Effect> = Vec::new();
        if self.connected {
            effects.push(Effect::Send(ToSsh::Detach));
            effects.push(Effect::Send(ToSsh::ListSessions));
        }
        self.attached = false;
        self.view = Page::Selector;
        effects
    }
    /// Apply one event from the connection.
    pub fn handle_event(&mut self, ev: FromSsh) -> (effects: Vec<Effect>)
        ensures
            consistent(*old(self)) ==> consistent(*final(self)),
            event_applied(*old(self), ev, effects@, *final(self)),
    {
        let mut effects: Vec<Effect> = Vec::new();
        match ev {
            FromSsh::Status(s) => {
                self.status = s;
            },
            FromSsh::Error(e) => {
                let mut status = String::from_str("\u{26a0} ");
                status.append(e.as_str());
                self.status = status;
            },
            FromSsh::SessionList(list) => {
                self.sessions = list;
                self.listed = true;
            },
            FromSsh::Attached => {
                self.attached = true;
                let mut status = String::from_str("Attached: ");
                status.append(self.attached_session.as_str());
                self.status = status;
            },
            FromSsh::Data(bytes) => {
                let mut filtered: Vec<u8> = Vec::new();
                self.acs.feed(bytes.as_slice(), &mut filtered);
                assert(filtered@ =~= run_output(old(self).acs@, bytes@));
                effects.push(Effect::Process(filtered));
            },
            FromSsh::Detached => {
                self.attached = false;
                if self.view == Page::Terminal {
                    self.view = Page::Selector;
                }
            },
            FromSsh::Closed => {
                self.status = String::from_str("Disconnected");
                self.connected = false;
                effects.push(Effect::CloseConnection);
                self.connected_idx = None;
                self.attached = false;
                self.view = Page::Selector;
            },
        }
        effects
    }

    /// The "+ Host" button: open the form on a new, default host.
    pub fn add_host(&mut self)
        ensures
            consistent(*old(self)) ==> consistent(*final(self)),
            final(self).editor matches Some(e) && e.index is None && is_default_host(e.host),
            *final(self) == (AppModel { editor: final(self).editor, ..*old(self) }),
    {
        self.editor = Some(HostEditor { index: None, host: Host::default() });
    }

    /// The edit button of host `i`: open the form on a copy of it.
    pub fn edit_host(&mut self, i: usize)
        ensures
            consistent(*old(self)) ==> consistent(*final(self)),
            i < old(self).config.hosts@.len() ==> final(self).editor == Some(
                HostEditor { index: Some(i), host: old(self).config.hosts@[i as int] },
            ),
            i >= old(self).config.hosts@.len() ==> final(self).editor == old(self).editor,
            *final(self) == (AppModel { editor: final(self).editor, ..*old(self) }),
    {
        if i < self.config.hosts.len() {
            let h = self.config.hosts[i].clone();
            self.editor = Some(HostEditor { index: Some(i), host: h });
        }
    }

    /// Close out a frame of the host form: Save replaces the edited host (or
    /// appends a new one) and saves; Delete removes the edited host and
    /// saves; Cancel and closing the window drop the form; with no button
    /// pressed an open form stays.
    pub fn finish_editor(&mut self, editor: HostEditor, action: Option<EditorAction>, open: bool) -> (effects: Vec<Effect>)
        ensures
            consistent(*old(self)) ==> consistent(*final(self)),
            match action {
                Some(EditorAction::Save) => effects@ == seq![Effect::SaveConfig] && (match editor.index {
                    Some(i) if i < old(self).config.hosts@.len() => final(self).config.hosts@
                        == old(self).config.hosts@.update(i as int, editor.host),
                    _ => final(self).config.hosts@ == old(self).config.hosts@.push(editor.host),
                }) && final(self).editor is None,
                Some(EditorAction::Delete) => (match editor.index {
                    Some(i) if i < old(self).config.hosts@.len() => effects@ == seq![
                        Effect::SaveConfig,
                    ] && final(self).config.hosts@ == old(self).config.hosts@.remove(i as int),
                    _ => effects@.len() == 0 && final(self).config == old(self).config,
                }) && final(self).editor is None,
                Some(EditorAction::Cancel) => effects@.len() == 0 && final(self).config == old(
                    self,
                ).config && final(self).editor is None,
                None => effects@.len() == 0 && final(self).config == old(self).config && (if open {
                    final(self).editor == Some(editor)
                } else {
                    final(self).editor is None
                }),
            },
            final(self).new_session == old(self).new_session,
            final(self).status == old(self).status,
            final(self).view == old(self).view,
            final(self).attached == old(self).attached,
            keeps_connection(*old(self), *final(self)),
            keeps_terminal(*old(self), *final(self)),
    {
        let mut effects: Vec<Effect> = Vec::new();
        self.editor = None;
        match action {
            Some(EditorAction::Save) => {
                match editor.index {
                    Some(i) if i < self.config.hosts.len() => {
                        self.config.hosts.set(i, editor.host);
                    },
                    _ => self.config.hosts.push(editor.host),
                }
                effects.push(Effect::SaveConfig);
            },
            Some(EditorAction::Delete) => {
                if let Some(i) = editor.index {
                    if i < self.config.hosts.len() {
                        self.config.hosts.remove(i);
                        effects.push(Effect::SaveConfig);
                    }
                }
            },
            Some(EditorAction::Cancel) => {},
            None => {
                if open {
                    // Window still open — keep editing next frame.
                    self.editor = Some(editor);
                }
            },
        }
        effects
    }

    /// The "A+" button: one point larger, at most 32.
    pub fn font_larger(&mut self)
        ensures
            consistent(*old(self)) ==> consistent(*final(self)),
            final(self).font_size == if old(self).font_size >= max_font() {
                max_font()
            } else {
                (old(self).font_size + 1) as u8
            },
            *final(self) == (AppModel { font_size: final(self).font_size, ..*old(self) }),
    {
        self.font_size = if self.font_size >= 32 {
            32
        } else {
            self.font_size + 1
        };
    }

    /// The "A−" button: one point smaller, at least 8.
    pub fn font_smaller(&mut self)
        ensures
            consistent(*old(self)) ==> consistent(*final(self)),
            final(self).font_size == if old(self).font_size <= min_font() {
                min_font()
            } else {
                (old(self).font_size - 1) as u8
            },
            *final(self) == (AppModel { font_size: final(self).font_size, ..*old(self) }),
    {
        self.font_size = if self.font_size <= 8 {
            8
        } else {
            self.font_size - 1
        };
    }

    /// The grid that fits the terminal view changed: resize the local parser
    /// and, while attached, the remote PTY.
    pub fn grid_changed(&mut self, grid: &Grid) -> (effects: Vec<Effect>)
        ensures
            consistent(*old(self)) ==> consistent(*final(self)),
            grid.cols == old(self).grid_cols && grid.rows == old(self).grid_rows ==> effects@.len()
                == 0,
            grid.cols != old(self).grid_cols || grid.rows != old(self).grid_rows ==> effects@ == seq![
                Effect::ResizeParser { rows: grid.rows as u16, cols: grid.cols as u16 },
            ] + if old(self).attached && old(self).connected {
                seq![Effect::Send(ToSsh::Resize { rows: grid.rows as u16, cols: grid.cols as u16 })]
            } else {
                Seq::<Effect>::empty()
            },
            *final(self) == (AppModel { grid_cols: grid.cols, grid_rows: grid.rows, ..*old(self) }),
    {
        let mut effects: Vec<Effect> = Vec::new();
        if grid.cols != self.grid_cols || grid.rows != self.grid_rows {
            self.grid_cols = grid.cols;
            self.grid_rows = grid.rows;
            effects.push(Effect::ResizeParser { rows: grid.rows as u16, cols: grid.cols as u16 });
            if self.attached && self.connected {
                effects.push(
                    Effect::Send(ToSsh::Resize { rows: grid.rows as u16, cols: grid.cols as u16 }),
                );
            }
        }
        effects
    }

    /// The terminal view's input for one frame: translated to bytes and sent
    /// to the attached PTY when there are any and a connection is live.
    pub fn terminal_input(
        &self,
        events: &Vec<InputEvent>,
        modifiers: Modifiers,
        app_cursor: bool,
        bracketed_paste: bool,
    ) -> (effects: Vec<Effect>)
        ensures
            ({
                let bytes = events_bytes(events@, modifiers, app_cursor, bracketed_paste);
                if bytes.len() > 0 && self.connected {
                    effects@.len() == 1 && (effects@[0] matches Effect::Send(ToSsh::Input(b))
                        && b@ == bytes)
                } else {
                    effects@.len() == 0
                }
            }),
    {
        let out = encode_input(events, modifiers, app_cursor, bracketed_paste);
        let mut effects: Vec<Effect> = Vec::new();
        if out.len() > 0 && self.connected {
            effects.push(Effect::Send(ToSsh::Input(out)));
        }
        effects
    }

    /// How soon to repaint: steadily while connected, so PTY output and
    /// status flow in without waiting for an input event.
    pub fn repaint_after_ms(&self) -> (ms: u64)
        ensures
            ms == if self.connected {
                16u64
            } else {
                250u64
            },
    {
        if self.connected {
            16
        } else {
            250
        }
    }
}

} // verus!
