//! Host configuration.
//!
//! Persisted as JSON in the platform data directory (the reading and writing
//! live with the UI). Credentials are stored in plaintext — this is a personal
//! tool, not a secrets manager.
use vstd::prelude::*;

use crate::text::{blank, is_blank};

verus! {

/// The SSH port used when a host names none.
pub open spec fn spec_default_port() -> u16 {
    22
}

pub fn default_port() -> (p: u16)
    ensures
        p == spec_default_port(),
{
    22
}

/// One SSH host.
pub struct Host {
    /// Friendly name shown in the selector. Falls back to `host` if empty.
    pub label: String,
    pub host: String,
    pub port: u16,
    pub username: String,
    /// Password auth. Used when `private_key` is empty.
    pub password: String,
    /// OpenSSH/PEM private key text. Takes precedence over password.
    pub private_key: String,
    /// Passphrase for an encrypted `private_key`.
    pub key_passphrase: String,
    /// Jump command: when set, tmux runs at the far end of it (on the box
    /// reached by that command) instead of directly on `host`.
    pub command: String,
}

impl Default for Host {
    fn default() -> (h: Self)
        ensures
            h.label@ == Seq::<char>::empty(),
            h.host@ == Seq::<char>::empty(),
            h.port == spec_default_port(),
            h.username@ == Seq::<char>::empty(),
            h.password@ == Seq::<char>::empty(),
            h.private_key@ == Seq::<char>::empty(),
            h.key_passphrase@ == Seq::<char>::empty(),
            h.command@ == Seq::<char>::empty(),
    {
        Host {
            label: String::new(),
            host: String::new(),
            port: 22,
            username: String::new(),
            password: String::new(),
            private_key: String::new(),
            key_passphrase: String::new(),
            command: String::new(),
        }
    }
}

impl Clone for Host {
    fn clone(&self) -> (h: Self)
        ensures
            h == *self,
    {
        Host {
            label: self.label.clone(),
            host: self.host.clone(),
            port: self.port,
            username: self.username.clone(),
            password: self.password.clone(),
            private_key: self.private_key.clone(),
            key_passphrase: self.key_passphrase.clone(),
            command: self.command.clone(),
        }
    }
}

/// The name shown for a host: its label, falling back to `host` when the
/// label is empty (or only white space).
pub open spec fn display_name_of(label: Seq<char>, host: Seq<char>) -> Seq<char> {
    if is_blank(label) {
        host
    } else {
        label
    }
}

impl Host {
    pub fn display_name(&self) -> (r: String)
        ensures
            r@ == display_name_of(self.label@, self.host@),
    {
        if blank(self.label.as_str()) {
            self.host.clone()
        } else {
            self.label.clone()
        }
    }
}

/// All configured hosts, in the order the selector lists them.
pub struct Config {
    pub hosts: Vec<Host>,
}

impl Default for Config {
    fn default() -> (c: Self)
        ensures
            c.hosts@ == Seq::<Host>::empty(),
    {
        Config { hosts: Vec::new() }
    }
}

} // verus!
