//! The remote side of a connection: which user logs in, how, the tmux
//! commands that run there, and the session names `tmux ls` reports.
use vstd::prelude::*;

use vstd::utf8::{decode_utf8, valid_utf8};

use crate::config::{display_name_of, Host};
use crate::protocol::FromSsh;
use crate::text::{
    append_decimal,
    blank,
    char_is_whitespace,
    chars_of,
    decimal_chars,
    index_of,
    is_blank,
    is_white_space,
    lemma_index_of_bounds,
    lemma_trim_empty_is_blank,
    push_char,
    string_from,
    trim,
    trim_bounds,
};

verus! {

/// The word that marks a `tmux ls` line: "name: N windows (created …)".
pub open spec fn window_word() -> Seq<char> {
    seq!['w', 'i', 'n', 'd', 'o', 'w']
}

/// `s` contains "window" (and so also when it contains "windows").
pub open spec fn mentions_window(s: Seq<char>) -> bool {
    exists|i: int| 0 <= i && i + 6 <= s.len() && #[trigger] s.subrange(i, i + 6) == window_word()
}

/// Some character of `s` is white space.
pub open spec fn has_white_space(s: Seq<char>) -> bool {
    exists|i: int| 0 <= i < s.len() && is_white_space(#[trigger] s[i])
}

/// The session a trimmed `tmux ls` line names: the text before the first
/// `:`, when it is non-empty and holds no white space, and the rest of the
/// line mentions windows. Other lines (a login banner, motd noise) name none.
pub open spec fn session_of_line(l: Seq<char>) -> Option<Seq<char>> {
    let k = index_of(l, ':');
    if k >= l.len() {
        None
    } else {
        let name = l.take(k);
        let rest = l.skip(k + 1);
        if name.len() == 0 || has_white_space(name) {
            None
        } else if mentions_window(rest) {
            Some(name)
        } else {
            None
        }
    }
}

/// The session names in `tmux ls` output, one per line that names one, in
/// order. Lines end at `\n`; each is trimmed of white space (a `\r` too).
pub open spec fn sessions_in(text: Seq<char>) -> Seq<Seq<char>>
    decreases text.len(),
{
    if text.len() == 0 {
        Seq::empty()
    } else {
        let k = index_of(text, '\n');
        let here = match session_of_line(trim(text.take(k))) {
            Some(n) => seq![n],
            None => Seq::empty(),
        };
        proof {
            lemma_index_of_bounds(text, '\n');
        }
        if k < text.len() {
            here + sessions_in(text.skip(k + 1))
        } else {
            here
        }
    }
}

/// Every session name read from `tmux ls` output is non-empty and holds no
/// white space and no `:`.
pub proof fn lemma_session_names_well_formed(text: Seq<char>)
    ensures
        forall|k: int|
            0 <= k < sessions_in(text).len() ==> {
                let n = #[trigger] sessions_in(text)[k];
                &&& n.len() > 0
                &&& !has_white_space(n)
                &&& !n.contains(':')
            },
    decreases text.len(),
{
    if text.len() > 0 {
        let k = index_of(text, '\n');
        lemma_index_of_bounds(text, '\n');
        let l = trim(text.take(k));
        lemma_index_of_bounds(l, ':');
        let here: Seq<Seq<char>> = match session_of_line(l) {
            Some(n) => seq![n],
            None => Seq::empty(),
        };
        if let Some(n) = session_of_line(l) {
            let c = index_of(l, ':');
            assert(n == l.take(c));
            assert forall|j: int| 0 <= j < n.len() implies n[j] != ':' by {
                assert(n[j] == l[j]);
            }
        }
        if k < text.len() {
            lemma_session_names_well_formed(text.skip(k + 1));
            let rest = sessions_in(text.skip(k + 1));
            assert(sessions_in(text) == here + rest);
            assert forall|j: int| 0 <= j < sessions_in(text).len() implies {
                let n = #[trigger] sessions_in(text)[j];
                &&& n.len() > 0
                &&& !has_white_space(n)
                &&& !n.contains(':')
            } by {
                if j >= here.len() {
                    assert(sessions_in(text)[j] == rest[j - here.len()]);
                }
            }
        }
    }
}

/// The character sequences of a list of strings.
pub open spec fn string_views(v: Seq<String>) -> Seq<Seq<char>> {
    v.map_values(|s: String| s@)
}

/// The position of the first `c` in `v[lo..hi]`, or `hi`.
fn find_char(v: &Vec<char>, lo: usize, hi: usize, c: char) -> (r: usize)
    requires
        lo <= hi <= v@.len(),
    ensures
        lo <= r <= hi,
        r - lo == index_of(v@.subrange(lo as int, hi as int), c),
{
    let mut j = lo;
    while j < hi && v[j] != c
        invariant
            lo <= j <= hi <= v@.len(),
            index_of(v@.subrange(lo as int, hi as int), c) == (j - lo) + index_of(
                v@.subrange(j as int, hi as int),
                c,
            ),
        decreases hi - j,
    {
        assert(v@.subrange(j as int, hi as int).drop_first() =~= v@.subrange(j + 1, hi as int));
        j = j + 1;
    }
    j
}

/// Whether `v[lo..hi]` holds white space.
fn any_white_space(v: &Vec<char>, lo: usize, hi: usize) -> (r: bool)
    requires
        lo <= hi <= v@.len(),
    ensures
        r == has_white_space(v@.subrange(lo as int, hi as int)),
{
    let ghost s = v@.subrange(lo as int, hi as int);
    let mut j = lo;
    while j < hi
        invariant
            lo <= j <= hi <= v@.len(),
            s == v@.subrange(lo as int, hi as int),
            forall|i: int| 0 <= i < j - lo ==> !is_white_space(#[trigger] s[i]),
        decreases hi - j,
    {
        if char_is_whitespace(v[j]) {
            assert(is_white_space(s[j - lo]));
            return true;
        }
        j = j + 1;
    }
    false
}

/// Whether `v[lo..hi]` contains "window".
fn any_window(v: &Vec<char>, lo: usize, hi: usize) -> (r: bool)
    requires
        lo <= hi <= v@.len(),
    ensures
        r == mentions_window(v@.subrange(lo as int, hi as int)),
{
    let ghost s = v@.subrange(lo as int, hi as int);
    if hi - lo < 6 {
        return false;
    }
    let mut p = lo;
    while p <= hi - 6
        invariant
            lo <= p <= hi <= v@.len(),
            hi - lo >= 6,
            s == v@.subrange(lo as int, hi as int),
            forall|i: int| 0 <= i < p - lo ==> #[trigger] s.subrange(i, i + 6) != window_word(),
        decreases hi - p,
    {
        if v[p] == 'w' && v[p + 1] == 'i' && v[p + 2] == 'n' && v[p + 3] == 'd' && v[p + 4] == 'o'
            && v[p + 5] == 'w' {
            assert(s.subrange(p - lo, p - lo + 6) =~= window_word());
            return true;
        }
        assert(s.subrange(p - lo, p - lo + 6)[0] == v@[p as int]);
        assert(s.subrange(p - lo, p - lo + 6)[1] == v@[p + 1]);
        assert(s.subrange(p - lo, p - lo + 6)[2] == v@[p + 2]);
        assert(s.subrange(p - lo, p - lo + 6)[3] == v@[p + 3]);
        assert(s.subrange(p - lo, p - lo + 6)[4] == v@[p + 4]);
        assert(s.subrange(p - lo, p - lo + 6)[5] == v@[p + 5]);
        p = p + 1;
    }
    false
}

/// The session named by the (already trimmed) line `v[lo..hi]`.
fn line_session(v: &Vec<char>, lo: usize, hi: usize) -> (r: Option<String>)
    requires
        lo <= hi <= v@.len(),
    ensures
        match r {
            Some(s) => session_of_line(v@.subrange(lo as int, hi as int)) == Some(s@),
            None => session_of_line(v@.subrange(lo as int, hi as int)) is None,
        },
{
    let ghost l = v@.subrange(lo as int, hi as int);
    let c = find_char(v, lo, hi, ':');
    if c == hi {
        return None;
    }
    assert(l.take(c - lo) =~= v@.subrange(lo as int, c as int));
    assert(l.skip(c - lo + 1) =~= v@.subrange(c + 1, hi as int));
    if c == lo || any_white_space(v, lo, c) {
        return None;
    }
    if any_window(v, c + 1, hi) {
        Some(string_from(v, lo, c))
    } else {
        None
    }
}

/// The session names listed in `tmux ls` output (see [`sessions_in`]).
pub fn session_names(text: &str) -> (r: Vec<String>)
    ensures
        string_views(r@) == sessions_in(text@),
{
    let v = chars_of(text);
    let n = v.len();
    let mut names: Vec<String> = Vec::new();
    let mut i: usize = 0;
    assert(v@.skip(0) =~= v@);
    while i < n
        invariant
            n == v@.len(),
            v@ == text@,
            i <= n,
            string_views(names@) + sessions_in(v@.skip(i as int)) == sessions_in(v@),
        decreases n - i,
    {
        let ghost rest = v@.skip(i as int);
        let ghost before = string_views(names@);
        let j = find_char(&v, i, n, '\n');
        assert(v@.subrange(i as int, n as int) =~= rest);
        assert(rest.take(j - i) =~= v@.subrange(i as int, j as int));
        let (a, b) = trim_bounds(&v, i, j);
        let found = line_session(&v, a, b);
        let ghost here: Seq<Seq<char>> = match session_of_line(trim(rest.take(j - i))) {
            Some(nm) => seq![nm],
            None => Seq::empty(),
        };
        match found {
            Some(s) => {
                names.push(s);
                assert(string_views(names@) =~= before + here);
            },
            None => {
                assert(string_views(names@) =~= before + here);
            },
        }
        if j < n {
            assert(rest.skip(j - i + 1) =~= v@.skip(j + 1));
            i = j + 1;
        } else {
            assert(v@.skip(n as int) =~= Seq::<char>::empty());
            assert(here + Seq::<Seq<char>>::empty() =~= here);
            i = n;
        }
    }
    assert(v@.skip(n as int) =~= Seq::<char>::empty());
    assert(string_views(names@) + Seq::<Seq<char>>::empty() =~= string_views(names@));
    names
}

/// What `String::from_utf8_lossy` makes of a byte string: the text it
/// encodes, with each invalid sequence replaced by U+FFFD.
pub uninterp spec fn utf8_lossy(bytes: Seq<u8>) -> Seq<char>;

/// std's `String::from_utf8_lossy`. Its result is named by [`utf8_lossy`];
/// the contract adds what the documentation says of valid input: it comes
/// back unchanged. How invalid sequences are replaced is left unsaid.
#[verifier::external_body]
fn from_utf8_lossy(bytes: &[u8]) -> (s: String)
    ensures
        s@ == utf8_lossy(bytes@),
        valid_utf8(bytes@) ==> s@ == decode_utf8(bytes@),
{
    String::from_utf8_lossy(bytes).into_owned()
}

/// The session names in the raw output of `tmux ls`.
pub fn parse_session_list(out: &[u8]) -> (r: Vec<String>)
    ensures
        string_views(r@) == sessions_in(utf8_lossy(out@)),
        valid_utf8(out@) ==> string_views(r@) == sessions_in(decode_utf8(out@)),
{
    let text = from_utf8_lossy(out);
    session_names(text.as_str())
}

/// The user that logs in: `root` when the host names none.
pub open spec fn login_user_of(username: Seq<char>) -> Seq<char> {
    if username.len() == 0 {
        seq!['r', 'o', 'o', 't']
    } else {
        username
    }
}

pub fn login_user(username: &str) -> (r: String)
    ensures
        r@ == login_user_of(username@),
{
    if username.is_empty() {
        proof {
            reveal_strlit("root");
        }
        String::from_str("root")
    } else {
        String::from_str(username)
    }
}

/// How a connection authenticates.
pub enum AuthMethod {
    /// With the host's private key, decrypted with the passphrase if any.
    PublicKey { passphrase: Option<String> },
    /// With the host's password.
    Password,
}

/// A private key is used when one is given (not blank); it takes precedence
/// over the password. An empty passphrase means the key is not encrypted.
pub fn auth_method(host: &Host) -> (r: AuthMethod)
    ensures
        r is PublicKey <==> !is_blank(host.private_key@),
        r matches AuthMethod::PublicKey { passphrase } ==> match passphrase {
            Some(p) => host.key_passphrase@.len() > 0 && p@ == host.key_passphrase@,
            None => host.key_passphrase@.len() == 0,
        },
{
    if !blank(host.private_key.as_str()) {
        let passphrase = if host.key_passphrase.as_str().is_empty() {
            None
        } else {
            Some(host.key_passphrase.clone())
        };
        AuthMethod::PublicKey { passphrase }
    } else {
        AuthMethod::Password
    }
}

/// What goes before `tmux` on the remote command line: nothing, or the
/// trimmed jump command and a space.
pub open spec fn jump_prefix_of(command: Seq<char>) -> Seq<char> {
    if is_blank(command) {
        Seq::empty()
    } else {
        trim(command).push(' ')
    }
}

pub fn jump_prefix(command: &str) -> (r: String)
    ensures
        r@ == jump_prefix_of(command@),
{
    let v = chars_of(command);
    let (a, b) = trim_bounds(&v, 0, v.len());
    assert(v@.subrange(0, v@.len() as int) =~= command@);
    if a == b {
        proof {
            lemma_trim_empty_is_blank(command@);
        }
        String::new()
    } else {
        proof {
            lemma_trim_empty_is_blank(command@);
        }
        let mut r = string_from(&v, a, b);
        push_char(&mut r, ' ');
        r
    }
}

/// `tmux ls`, run through the jump prefix.
pub fn list_command(prefix: &str) -> (r: String)
    ensures
        r@ == prefix@ + "tmux ls"@,
{
    let mut r = String::from_str(prefix);
    r.append("tmux ls");
    r
}

/// `s` quoted for a POSIX shell's single quotes: each `'` becomes `'\''`.
pub open spec fn single_quote_escaped(s: Seq<char>) -> Seq<char>
    decreases s.len(),
{
    if s.len() == 0 {
        Seq::empty()
    } else {
        single_quote_escaped(s.drop_last()) + if s.last() == '\'' {
            seq!['\'', '\\', '\'', '\'']
        } else {
            seq![s.last()]
        }
    }
}

/// How a POSIX shell reads a word built from single-quoted parts and
/// backslash-escaped characters (`quoted`: inside single quotes): the
/// characters the word stands for, or `None` when it holds anything else
/// outside quotes (which the shell could interpret) or an unclosed quote.
pub open spec fn shell_word(s: Seq<char>, quoted: bool) -> Option<Seq<char>>
    decreases s.len(),
{
    if s.len() == 0 {
        if quoted {
            None
        } else {
            Some(Seq::empty())
        }
    } else if quoted {
        if s[0] == '\'' {
            shell_word(s.drop_first(), false)
        } else {
            match shell_word(s.drop_first(), true) {
                Some(r) => Some(seq![s[0]] + r),
                None => None,
            }
        }
    } else if s[0] == '\'' {
        shell_word(s.drop_first(), true)
    } else if s[0] == '\\' && s.len() >= 2 {
        match shell_word(s.subrange(2, s.len() as int), false) {
            Some(r) => Some(seq![s[1]] + r),
            None => None,
        }
    } else {
        None
    }
}

/// The escaped form of one character.
pub open spec fn escaped_char(c: char) -> Seq<char> {
    if c == '\'' {
        seq!['\'', '\\', '\'', '\'']
    } else {
        seq![c]
    }
}

proof fn lemma_escaped_concat(a: Seq<char>, b: Seq<char>)
    ensures
        single_quote_escaped(a + b) == single_quote_escaped(a) + single_quote_escaped(b),
    decreases b.len(),
{
    if b.len() == 0 {
        assert(a + b =~= a);
        assert(single_quote_escaped(a) + Seq::<char>::empty() =~= single_quote_escaped(a));
    } else {
        lemma_escaped_concat(a, b.drop_last());
        assert((a + b).drop_last() =~= a + b.drop_last());
        assert(single_quote_escaped(a + b) =~= single_quote_escaped(a) + single_quote_escaped(b));
    }
}

proof fn lemma_escaped_single(c: char)
    ensures
        single_quote_escaped(seq![c]) == escaped_char(c),
{
    let e = Seq::<char>::empty();
    assert(seq![c].drop_last() =~= e);
    assert(seq![c].last() == c);
    assert(single_quote_escaped(e) == e);
    assert(e + escaped_char(c) =~= escaped_char(c));
}

/// Inside single quotes, an escaped string reads back as itself, followed by
/// whatever the rest reads as.
proof fn lemma_escaped_reads_back(s: Seq<char>, t: Seq<char>)
    ensures
        shell_word(single_quote_escaped(s) + t, true) == match shell_word(t, true) {
            Some(r) => Some(s + r),
            None => None,
        },
    decreases s.len(),
{
    if s.len() == 0 {
        assert(single_quote_escaped(s) + t =~= t);
        match shell_word(t, true) {
            Some(r) => {
                assert(s + r =~= r);
            },
            None => {},
        }
    } else {
        let c = s[0];
        let rest = s.drop_first();
        lemma_escaped_reads_back(rest, t);
        assert(seq![c] + rest =~= s);
        lemma_escaped_concat(seq![c], rest);
        lemma_escaped_single(c);
        let tail = single_quote_escaped(rest) + t;
        let w = escaped_char(c) + tail;
        assert(single_quote_escaped(s) + t =~= w);
        if c == '\'' {
            let u = seq!['\\', '\'', '\''] + tail;
            let v = seq!['\''] + tail;
            assert(w[0] == '\'');
            assert(w.drop_first() =~= u);
            assert(shell_word(w, true) == shell_word(u, false));
            assert(u[0] == '\\' && u[1] == '\'');
            assert(u.subrange(2, u.len() as int) =~= v);
            assert(v[0] == '\'');
            assert(v.drop_first() =~= tail);
            assert(shell_word(v, false) == shell_word(tail, true));
            assert(shell_word(u, false) == match shell_word(tail, true) {
                Some(r) => Some(seq!['\''] + r),
                None => None,
            });
        } else {
            assert(w[0] == c);
            assert(w.drop_first() =~= tail);
            assert(shell_word(w, true) == match shell_word(tail, true) {
                Some(r) => Some(seq![c] + r),
                None => None,
            });
        }
        match shell_word(t, true) {
            Some(r) => {
                assert(seq![c] + (rest + r) =~= s + r);
            },
            None => {},
        }
    }
}

/// The session name in the attach command reaches tmux unchanged, as one
/// word, whatever quotes it holds: the shell reads `'` + its escaped form
/// + `'` back as exactly the name.
pub proof fn lemma_quoted_session_reads_back(session: Seq<char>)
    ensures
        shell_word(seq!['\''] + single_quote_escaped(session) + seq!['\''], false) == Some(session),
{
    let e = single_quote_escaped(session);
    let w = seq!['\''] + e + seq!['\''];
    assert(w.drop_first() =~= e + seq!['\'']);
    lemma_escaped_reads_back(session, seq!['\'']);
    let q = seq!['\''];
    assert(q[0] == '\'');
    assert(q.drop_first() =~= Seq::<char>::empty());
    assert(shell_word(Seq::<char>::empty(), false) == Some(Seq::<char>::empty()));
    assert(shell_word(q, true) == Some(Seq::<char>::empty()));
    assert(w[0] == '\'');
    assert(session + Seq::<char>::empty() =~= session);
}

pub fn escape_single_quotes(s: &str) -> (r: String)
    ensures
        r@ == single_quote_escaped(s@),
{
    let v = chars_of(s);
    let mut r = String::new();
    let mut i: usize = 0;
    while i < v.len()
        invariant
            i <= v@.len(),
            v@ == s@,
            r@ == single_quote_escaped(v@.take(i as int)),
        decreases v@.len() - i,
    {
        if v[i] == '\'' {
            push_char(&mut r, '\'');
            push_char(&mut r, '\\');
            push_char(&mut r, '\'');
            push_char(&mut r, '\'');
        } else {
            push_char(&mut r, v[i]);
        }
        assert(v@.take(i + 1).drop_last() =~= v@.take(i as int));
        assert(r@ =~= single_quote_escaped(v@.take(i + 1)));
        i = i + 1;
    }
    assert(v@.take(v@.len() as int) =~= v@);
    r
}

/// `tmux -u new-session -A -s '<session>'`, run through the jump prefix.
/// `new-session -A` attaches if the session exists and creates it otherwise
/// (one round trip, no race); `-u` forces UTF-8 so box-drawing renders.
pub fn attach_command(prefix: &str, session: &str) -> (r: String)
    ensures
        r@ == prefix@ + "tmux -u new-session -A -s '"@ + single_quote_escaped(session@) + "'"@,
{
    let escaped = escape_single_quotes(session);
    let mut r = String::from_str(prefix);
    r.append("tmux -u new-session -A -s '");
    r.append(escaped.as_str());
    r.append("'");
    r
}

/// The status shown while a connection is being opened.
pub fn connecting_status(host: &Host) -> (r: String)
    ensures
        r@ == "Connecting to "@ + host.host@ + seq![':'] + decimal_chars(host.port as nat)
            + "\u{2026}"@,
{
    let mut r = String::from_str("Connecting to ");
    r.append(host.host.as_str());
    push_char(&mut r, ':');
    append_decimal(&mut r, host.port);
    r.append("\u{2026}");
    r
}

/// The status shown once the connection has logged in.
pub fn connected_status(host: &Host) -> (r: String)
    ensures
        r@ == "Connected to "@ + display_name_of(host.label@, host.host@),
{
    let mut r = String::from_str("Connected to ");
    let name = host.display_name();
    r.append(name.as_str());
    r
}

/// What the connection reports once authentication is over: that it is
/// connected, or that authentication failed (and the connection ends).
pub fn after_auth(auth_ok: bool, host: &Host) -> (ev: FromSsh)
    ensures
        auth_ok ==> (ev matches FromSsh::Status(m) && m@ == "Connected to "@ + display_name_of(
            host.label@,
            host.host@,
        )),
        !auth_ok ==> (ev matches FromSsh::Error(m) && m@ == "authentication failed"@),
{
    if auth_ok {
        FromSsh::Status(connected_status(host))
    } else {
        FromSsh::Error(String::from_str("authentication failed"))
    }
}

} // verus!
