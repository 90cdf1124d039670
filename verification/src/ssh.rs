//! The SSH connection dialog, the remote file tree built from a directory
//! listing, and the clone-repository dialog.
use vstd::prelude::*;
use std::path::PathBuf;
use crate::text::{chars_of, decimal, digit_char, push_str, to_string};
use crate::listing::{entry_keys, sort_entries, sorted_keys, DirEntry};

verus! {

/// `PathBuf` is carried through as an opaque value.
#[verifier::external_type_specification]
#[verifier::external_body]
pub struct ExPathBuf(PathBuf);

/// How the SSH connection authenticates.
#[derive(Clone, Copy, Debug, PartialEq, Eq, Structural)]
pub enum SshAuthType {
    Password,
    Key,
    Agent,
}

/// What a click on a dialog asks for.
#[derive(Clone, Copy, Debug, PartialEq, Eq, Structural)]
pub enum DialogAction {
    NoAction,
    Connect,
    Cancel,
}

/// Credentials of an SSH connection.
#[derive(Debug)]
pub enum SshAuth {
    Password(String),
    Key { path: String, passphrase: Option<String> },
    Agent,
}

/// Everything needed to open an SSH connection.
#[derive(Debug)]
pub struct SshConfig {
    pub host: String,
    pub port: u16,
    pub username: String,
    pub auth: SshAuth,
}

/// State of the SSH connection dialog. Field 0 is the host, 1 the port, 2
/// the user name, 3 the password or key path, 4 the key passphrase.
#[derive(Debug)]
pub struct SshConnectionDialog {
    pub visible: bool,
    pub host: String,
    pub port: String,
    pub username: String,
    pub auth_type: SshAuthType,
    pub password: String,
    pub key_path: String,
    pub key_passphrase: String,
    pub error_message: Option<String>,
    pub focus_field: usize,
    /// 0 is the connect button, 1 the cancel button.
    pub hover_button: Option<usize>,
}

/// `true` for the characters `0` to `9`.
pub open spec fn is_digit(c: char) -> bool {
    '0' <= c <= '9'
}

pub open spec fn all_digits(ds: Seq<char>) -> bool {
    forall|i: int| 0 <= i < ds.len() ==> #[trigger] is_digit(ds[i])
}

/// Value of a string of decimal digits.
pub open spec fn digits_value(ds: Seq<char>) -> nat
    decreases ds.len(),
{
    if ds.len() == 0 {
        0
    } else {
        digits_value(ds.drop_last()) * 10 + ((ds.last() as u32) - ('0' as u32)) as nat
    }
}

/// The number a `u16` is parsed from: an optional `+` followed by at least
/// one decimal digit, with a value that fits in 16 bits.
pub open spec fn parse_u16(s: Seq<char>) -> Option<u16> {
    let ds = unsigned_digits(s);
    if ds.len() > 0 && all_digits(ds) && digits_value(ds) <= 65535 {
        Some(digits_value(ds) as u16)
    } else {
        None
    }
}

/// `s` without a leading `+`.
pub open spec fn unsigned_digits(s: Seq<char>) -> Seq<char> {
    if s.len() > 0 && s[0] == '+' {
        s.drop_first()
    } else {
        s
    }
}

/// The port of the dialog's port field: its number, or 22 when the field
/// does not hold one.
pub open spec fn port_of(s: Seq<char>) -> u16 {
    match parse_u16(s) {
        Some(p) => p,
        None => 22,
    }
}

/// A longer digit string never has a smaller value.
proof fn lemma_digits_value_grows(ds: Seq<char>, i: int)
    requires
        0 <= i <= ds.len(),
        all_digits(ds),
    ensures
        digits_value(ds.take(i)) <= digits_value(ds),
    decreases ds.len() - i,
{
    if i < ds.len() {
        lemma_digits_value_grows(ds, i + 1);
        assert(ds.take(i + 1).drop_last() =~= ds.take(i));
        assert(is_digit(ds[i]));
    } else {
        assert(ds.take(i) =~= ds);
    }
}

/// Parses a `u16` the way `str::parse::<u16>` does.
pub fn parse_port(s: &str) -> (r: Option<u16>)
    ensures
        r == parse_u16(s@),
{
    let cs = chars_of(s);
    let mut start: usize = 0;
    if cs.len() > 0 && cs[0] == '+' {
        start = 1;
    }
    let ghost ds = unsigned_digits(s@);
    assert(ds =~= cs@.subrange(start as int, cs@.len() as int));
    if start == cs.len() {
        return None;
    }
    let mut value: u32 = 0;
    let mut i: usize = start;
    while i < cs.len()
        invariant
            start <= i <= cs@.len(),
            cs@ == s@,
            ds == unsigned_digits(s@),
            ds =~= cs@.subrange(start as int, cs@.len() as int),
            all_digits(ds.take(i - start)),
            value == digits_value(ds.take(i - start)),
            value <= 65535,
        decreases cs@.len() - i,
    {
        let c = cs[i];
        assert(ds[i - start] == c);
        if !('0' <= c && c <= '9') {
            assert(!is_digit(ds[i - start]));
            assert(!all_digits(ds));
            assert(parse_u16(s@) is None);
            return None;
        }
        let d = (c as u32) - ('0' as u32);
        let next = value * 10 + d;
        assert(ds.take(i - start + 1).drop_last() =~= ds.take(i - start));
        assert(ds.take(i - start + 1).last() == c);
        assert(digits_value(ds.take(i - start + 1)) == next);
        if next > 65535 {
            proof {
                if all_digits(ds) {
                    lemma_digits_value_grows(ds, i - start + 1);
                }
            }
            assert(parse_u16(s@) is None);
            return None;
        }
        value = next;
        i = i + 1;
        assert(all_digits(ds.take(i - start))) by {
            assert forall|k: int| 0 <= k < ds.take(i - start).len() implies #[trigger] is_digit(
                ds.take(i - start)[k],
            ) by {
                if k < i - start - 1 {
                    assert(ds.take(i - start)[k] == ds.take(i - start - 1)[k]);
                }
            }
        }
    }
    assert(ds.take(i - start) =~= ds);
    Some(value as u16)
}

impl SshConnectionDialog {
    /// A hidden, empty dialog with port 22 and password authentication.
    pub fn new() -> (r: Self)
        ensures
            !r.visible,
            r.host@.len() == 0,
            r.port@ == "22"@,
            r.username@.len() == 0,
            r.auth_type == SshAuthType::Password,
            r.password@.len() == 0,
            r.key_path@.len() == 0,
            r.key_passphrase@.len() == 0,
            r.error_message is None,
            r.focus_field == 0,
            r.hover_button is None,
    {
        SshConnectionDialog {
            visible: false,
            host: String::new(),
            port: to_string("22"),
            username: String::new(),
            auth_type: SshAuthType::Password,
            password: String::new(),
            key_path: String::new(),
            key_passphrase: String::new(),
            error_message: None,
            focus_field: 0,
            hover_button: None,
        }
    }

    /// Empties every field; the port goes back to 22 and the authentication
    /// to password. Visibility is left alone.
    pub fn reset(&mut self)
        ensures
            final(self).visible == old(self).visible,
            final(self).host@.len() == 0,
            final(self).port@ == "22"@,
            final(self).username@.len() == 0,
            final(self).auth_type == SshAuthType::Password,
            final(self).password@.len() == 0,
            final(self).key_path@.len() == 0,
            final(self).key_passphrase@.len() == 0,
            final(self).error_message is None,
            final(self).focus_field == 0,
            final(self).hover_button is None,
    {
        self.host.clear();
        self.port = to_string("22");
        self.username.clear();
        self.auth_type = SshAuthType::Password;
        self.password.clear();
        self.key_path.clear();
        self.key_passphrase.clear();
        self.error_message = None;
        self.focus_field = 0;
        self.hover_button = None;
    }

    /// The connection the dialog describes; `None` while the host or the
    /// user name is empty.
    pub fn to_config(&self) -> (r: Option<SshConfig>)
        ensures
            (self.host@.len() == 0 || self.username@.len() == 0) <==> r is None,
            r matches Some(c) ==> {
                &&& c.host@ == self.host@
                &&& c.username@ == self.username@
                &&& c.port == port_of(self.port@)
                &&& match self.auth_type {
                    SshAuthType::Password => c.auth matches SshAuth::Password(p) && p@
                        == self.password@,
                    SshAuthType::Key => c.auth matches SshAuth::Key { path, passphrase } && path@
                        == self.key_path@ && (if self.key_passphrase@.len() == 0 {
                        passphrase is None
                    } else {
                        passphrase matches Some(pp) && pp@ == self.key_passphrase@
                    }),
                    SshAuthType::Agent => c.auth is Agent,
                }
            },
    {
        if self.host.as_str().is_empty() || self.username.as_str().is_empty() {
            return None;
        }
        let port = match parse_port(self.port.as_str()) {
            Some(p) => p,
            None => 22,
        };
        let auth = match self.auth_type {
            SshAuthType::Password => SshAuth::Password(to_string(self.password.as_str())),
            SshAuthType::Key => SshAuth::Key {
                path: to_string(self.key_path.as_str()),
                passphrase: if self.key_passphrase.as_str().is_empty() {
                    None
                } else {
                    Some(to_string(self.key_passphrase.as_str()))
                },
            },
            SshAuthType::Agent => SshAuth::Agent,
        };
        Some(
            SshConfig {
                host: to_string(self.host.as_str()),
                port,
                username: to_string(self.username.as_str()),
                auth,
            },
        )
    }

    /// Moves the focus to the next field, wrapping after the last field that
    /// the authentication type shows.
    pub fn next_field(&mut self)
        requires
            old(self).focus_field < usize::MAX,
        ensures
            *final(self) == (SshConnectionDialog { focus_field: final(self).focus_field, ..*old(self) }),
            final(self).focus_field == (old(self).focus_field + 1) % (last_field(
                old(self).auth_type,
            ) + 1) as int,
            final(self).auth_type == old(self).auth_type,
            final(self).host == old(self).host,
            final(self).port == old(self).port,
            final(self).username == old(self).username,
    {
        let max_field: usize = match self.auth_type {
            SshAuthType::Password => 3,
            SshAuthType::Key => 4,
            SshAuthType::Agent => 2,
        };
        self.focus_field = (self.focus_field + 1) % (max_field + 1);
    }

    /// A click on the dialog, given whether it hit the connect button or
    /// the cancel button: the hit button is highlighted and its action
    /// returned (connect first); elsewhere nothing is highlighted.
    pub fn click(&mut self, on_connect: bool, on_cancel: bool) -> (r: DialogAction)
        ensures
            *final(self) == (SshConnectionDialog { hover_button: final(self).hover_button, ..*old(self) }),
            on_connect ==> r == DialogAction::Connect && final(self).hover_button == Some(0usize),
            !on_connect && on_cancel ==> r == DialogAction::Cancel && final(self).hover_button
                == Some(1usize),
            !on_connect && !on_cancel ==> r == DialogAction::NoAction && final(self).hover_button
                is None,
            final(self).visible == old(self).visible,
            final(self).focus_field == old(self).focus_field,
    {
        if on_connect {
            self.hover_button = Some(0);
            DialogAction::Connect
        } else if on_cancel {
            self.hover_button = Some(1);
            DialogAction::Cancel
        } else {
            self.hover_button = None;
            DialogAction::NoAction
        }
    }

    /// Types `ch` into the focused field. The port field takes digits only;
    /// field 3 is the password or the key path, and nothing under agent
    /// authentication.
    pub fn handle_key(&mut self, ch: char)
        ensures
            *final(self) == (SshConnectionDialog { host: final(self).host, port: final(self).port, username: final(self).username, password: final(self).password, key_path: final(self).key_path, key_passphrase: final(self).key_passphrase, ..*old(self) }),
            final(self).host@ == (if old(self).focus_field == 0 {
                old(self).host@.push(ch)
            } else {
                old(self).host@
            }),
            final(self).port@ == (if old(self).focus_field == 1 && is_digit(ch) {
                old(self).port@.push(ch)
            } else {
                old(self).port@
            }),
            final(self).username@ == (if old(self).focus_field == 2 {
                old(self).username@.push(ch)
            } else {
                old(self).username@
            }),
            final(self).password@ == (if old(self).focus_field == 3 && old(self).auth_type
                == SshAuthType::Password {
                old(self).password@.push(ch)
            } else {
                old(self).password@
            }),
            final(self).key_path@ == (if old(self).focus_field == 3 && old(self).auth_type
                == SshAuthType::Key {
                old(self).key_path@.push(ch)
            } else {
                old(self).key_path@
            }),
            final(self).key_passphrase@ == (if old(self).focus_field == 4 {
                old(self).key_passphrase@.push(ch)
            } else {
                old(self).key_passphrase@
            }),
            final(self).focus_field == old(self).focus_field,
            final(self).auth_type == old(self).auth_type,
            final(self).visible == old(self).visible,
    {
        match self.focus_field {
            0 => self.host.push(ch),
            1 => {
                if '0' <= ch && ch <= '9' {
                    self.port.push(ch);
                }
            },
            2 => self.username.push(ch),
            3 => {
                match self.auth_type {
                    SshAuthType::Password => self.password.push(ch),
                    SshAuthType::Key => self.key_path.push(ch),
                    SshAuthType::Agent => {},
                }
            },
            4 => self.key_passphrase.push(ch),
            _ => {},
        }
    }

    /// Removes the last character of the focused field.
    pub fn handle_backspace(&mut self)
        ensures
            *final(self) == (SshConnectionDialog { host: final(self).host, port: final(self).port, username: final(self).username, password: final(self).password, key_path: final(self).key_path, key_passphrase: final(self).key_passphrase, ..*old(self) }),
            final(self).host@ == (if old(self).focus_field == 0 {
                drop_last_char(old(self).host@)
            } else {
                old(self).host@
            }),
            final(self).port@ == (if old(self).focus_field == 1 {
                drop_last_char(old(self).port@)
            } else {
                old(self).port@
            }),
            final(self).username@ == (if old(self).focus_field == 2 {
                drop_last_char(old(self).username@)
            } else {
                old(self).username@
            }),
            final(self).password@ == (if old(self).focus_field == 3 && old(self).auth_type
                == SshAuthType::Password {
                drop_last_char(old(self).password@)
            } else {
                old(self).password@
            }),
            final(self).key_path@ == (if old(self).focus_field == 3 && old(self).auth_type
                == SshAuthType::Key {
                drop_last_char(old(self).key_path@)
            } else {
                old(self).key_path@
            }),
            final(self).key_passphrase@ == (if old(self).focus_field == 4 {
                drop_last_char(old(self).key_passphrase@)
            } else {
                old(self).key_passphrase@
            }),
            final(self).focus_field == old(self).focus_field,
            final(self).auth_type == old(self).auth_type,
            final(self).visible == old(self).visible,
    {
        match self.focus_field {
            0 => {
                let _ = self.host.pop();
            },
            1 => {
                let _ = self.port.pop();
            },
            2 => {
                let _ = self.username.pop();
            },
            3 => {
                match self.auth_type {
                    SshAuthType::Password => {
                        let _ = self.password.pop();
                    },
                    SshAuthType::Key => {
                        let _ = self.key_path.pop();
                    },
                    SshAuthType::Agent => {},
                }
            },
            4 => {
                let _ = self.key_passphrase.pop();
            },
            _ => {},
        }
    }
}

/// The last field index the dialog shows for an authentication type.
pub open spec fn last_field(t: SshAuthType) -> nat {
    match t {
        SshAuthType::Password => 3,
        SshAuthType::Key => 4,
        SshAuthType::Agent => 2,
    }
}

/// `s` without its last character (unchanged when empty).
pub open spec fn drop_last_char(s: Seq<char>) -> Seq<char> {
    if s.len() > 0 {
        s.drop_last()
    } else {
        s
    }
}

/// One entry of a remote directory listing.
pub type RemoteDirEntry = DirEntry;

/// A node of the remote file tree.
#[derive(Debug)]
pub struct RemoteFileNode {
    pub name: String,
    pub path: String,
    pub is_dir: bool,
    pub is_expanded: bool,
    pub depth: u8,
    pub children: Vec<RemoteFileNode>,
}

/// The remote file tree shown in the sidebar.
#[derive(Debug)]
pub struct RemoteFileTree {
    pub nodes: Vec<RemoteFileNode>,
    pub root_path: String,
}

pub open spec fn node_key(n: RemoteFileNode) -> (Seq<char>, bool) {
    (n.name@, n.is_dir)
}

pub open spec fn node_keys(ns: Seq<RemoteFileNode>) -> Seq<(Seq<char>, bool)> {
    ns.map_values(|n: RemoteFileNode| node_key(n))
}

/// The path of `name` inside the directory `dir`.
pub open spec fn child_path(dir: Seq<char>, name: Seq<char>) -> Seq<char> {
    if dir == seq!['/'] {
        seq!['/'] + name
    } else {
        dir + seq!['/'] + name
    }
}

/// A fresh, collapsed top-level node for `name` in `dir`.
pub open spec fn is_listed_node(n: RemoteFileNode, dir: Seq<char>) -> bool {
    &&& n.path@ == child_path(dir, n.name@)
    &&& !n.is_expanded
    &&& n.depth == 0
    &&& n.children@.len() == 0
}

/// The path of `name` inside the directory `dir`.
fn make_child_path(dir: &[char], name: &str) -> (r: String)
    ensures
        r@ == child_path(dir@, name@),
{
    let mut r = String::new();
    if dir.len() == 1 && dir[0] == '/' {
        assert(dir@ =~= seq!['/']);
        r.push('/');
    } else {
        assert(dir@ != seq!['/']);
        let mut k: usize = 0;
        while k < dir.len()
            invariant
                k <= dir@.len(),
                r@ == dir@.take(k as int),
            decreases dir@.len() - k,
        {
            r.push(dir[k]);
            k = k + 1;
            assert(dir@.take(k as int) =~= dir@.take(k - 1).push(dir@[k - 1]));
        }
        assert(dir@.take(dir@.len() as int) =~= dir@);
        r.push('/');
    }
    push_str(&mut r, name);
    r
}

impl RemoteFileTree {
    /// An empty tree rooted at `/`.
    pub fn new() -> (r: Self)
        ensures
            r.nodes@.len() == 0,
            r.root_path@ == seq!['/'],
    {
        let mut root_path = String::new();
        root_path.push('/');
        RemoteFileTree { nodes: Vec::new(), root_path }
    }

    /// Expands or collapses the directory node `i`; other nodes, and file
    /// nodes, stay as they are.
    pub fn toggle_node(&mut self, i: usize)
        ensures
            final(self).root_path == old(self).root_path,
            final(self).nodes@.len() == old(self).nodes@.len(),
            forall|k: int|
                0 <= k < old(self).nodes@.len() && k != i ==> final(self).nodes@[k] == old(
                    self,
                ).nodes@[k],
            i < old(self).nodes@.len() ==> {
                let (a, b) = (old(self).nodes@[i as int], final(self).nodes@[i as int]);
                &&& b.name == a.name
                &&& b.path == a.path
                &&& b.is_dir == a.is_dir
                &&& b.depth == a.depth
                &&& b.children == a.children
                &&& b.is_expanded == (if a.is_dir {
                    !a.is_expanded
                } else {
                    a.is_expanded
                })
            },
    {
        if i < self.nodes.len() && self.nodes[i].is_dir {
            let ghost before = self.nodes@;
            let mut node = self.nodes.remove(i);
            node.is_expanded = !node.is_expanded;
            self.nodes.insert(i, node);
            assert forall|k: int| 0 <= k < before.len() && k != i implies self.nodes@[k]
                == before[k] by {
                if k < i {
                    assert(self.nodes@[k] == before.remove(i as int)[k]);
                } else {
                    assert(self.nodes@[k] == before.remove(i as int)[k - 1]);
                }
            }
        }
    }

    /// The tree of the listing `entries` of the directory `path`: one
    /// collapsed node per entry, directories first, then by name.
    pub fn from_entries(path: &str, entries: Vec<RemoteDirEntry>) -> (r: Self)
        ensures
            r.root_path@ == path@,
            sorted_keys(node_keys(r.nodes@)),
            node_keys(r.nodes@).to_multiset() == entry_keys(entries@).to_multiset(),
            forall|i: int| 0 <= i < r.nodes@.len() ==> is_listed_node(#[trigger] r.nodes@[i], path@),
    {
        let dir = chars_of(path);
        let sorted = sort_entries(entries);
        let mut nodes: Vec<RemoteFileNode> = Vec::new();
        let mut i: usize = 0;
        while i < sorted.len()
            invariant
                i <= sorted@.len(),
                dir@ == path@,
                node_keys(nodes@) == entry_keys(sorted@).take(i as int),
                forall|k: int| 0 <= k < nodes@.len() ==> is_listed_node(#[trigger] nodes@[k], path@),
            decreases sorted@.len() - i,
        {
            let e = &sorted[i];
            let node = RemoteFileNode {
                name: to_string(e.name.as_str()),
                path: make_child_path(&dir, e.name.as_str()),
                is_dir: e.is_dir,
                is_expanded: false,
                depth: 0,
                children: Vec::new(),
            };
            assert(*e == sorted@[i as int]);
            assert(node_key(node) == entry_keys(sorted@)[i as int]);
            let ghost before = nodes@;
            nodes.push(node);
            assert(node_keys(nodes@) =~= node_keys(before).push(node_key(node)));
            assert(node_keys(nodes@) =~= entry_keys(sorted@).take(i + 1));
            assert forall|k: int| 0 <= k < nodes@.len() implies is_listed_node(
                #[trigger] nodes@[k],
                path@,
            ) by {
                if k < before.len() {
                    assert(nodes@[k] == before[k]);
                }
            }
            i = i + 1;
        }
        assert(entry_keys(sorted@).take(sorted@.len() as int) =~= entry_keys(sorted@));
        RemoteFileTree { nodes, root_path: to_string(path) }
    }
}

/// State of the clone-repository dialog.
#[derive(Debug)]
pub struct CloneRepoDialog {
    pub visible: bool,
    pub url: String,
    pub target_path: Option<PathBuf>,
    pub error_message: Option<String>,
    pub focus_field: usize,
    pub hover_button: Option<usize>,
}

impl CloneRepoDialog {
    /// A hidden dialog with an empty URL and no target.
    pub fn new() -> (r: Self)
        ensures
            !r.visible,
            r.url@.len() == 0,
            r.target_path is None,
            r.error_message is None,
            r.focus_field == 0,
            r.hover_button is None,
    {
        CloneRepoDialog {
            visible: false,
            url: String::new(),
            target_path: None,
            error_message: None,
            focus_field: 0,
            hover_button: None,
        }
    }

    /// Empties the dialog; visibility is left alone.
    pub fn reset(&mut self)
        ensures
            final(self).visible == old(self).visible,
            final(self).url@.len() == 0,
            final(self).target_path is None,
            final(self).error_message is None,
            final(self).focus_field == 0,
            final(self).hover_button is None,
    {
        self.url.clear();
        self.target_path = None;
        self.error_message = None;
        self.focus_field = 0;
        self.hover_button = None;
    }

    /// A click on the dialog, given whether it hit the clone button or
    /// the cancel button: the hit button is highlighted and its action
    /// returned (connect first); elsewhere nothing is highlighted.
    pub fn click(&mut self, on_connect: bool, on_cancel: bool) -> (r: DialogAction)
        ensures
            *final(self) == (CloneRepoDialog { hover_button: final(self).hover_button, ..*old(self) }),
            on_connect ==> r == DialogAction::Connect && final(self).hover_button == Some(0usize),
            !on_connect && on_cancel ==> r == DialogAction::Cancel && final(self).hover_button
                == Some(1usize),
            !on_connect && !on_cancel ==> r == DialogAction::NoAction && final(self).hover_button
                is None,
            final(self).visible == old(self).visible,
            final(self).focus_field == old(self).focus_field,
    {
        if on_connect {
            self.hover_button = Some(0);
            DialogAction::Connect
        } else if on_cancel {
            self.hover_button = Some(1);
            DialogAction::Cancel
        } else {
            self.hover_button = None;
            DialogAction::NoAction
        }
    }

    /// Types `ch` into the URL.
    pub fn handle_key(&mut self, ch: char)
        ensures
            *final(self) == (CloneRepoDialog { url: final(self).url, ..*old(self) }),
            final(self).url@ == old(self).url@.push(ch),
            final(self).visible == old(self).visible,
            final(self).focus_field == old(self).focus_field,
    {
        self.url.push(ch);
    }

    /// Removes the last character of the URL.
    pub fn handle_backspace(&mut self)
        ensures
            *final(self) == (CloneRepoDialog { url: final(self).url, ..*old(self) }),
            final(self).url@ == drop_last_char(old(self).url@),
            final(self).visible == old(self).visible,
            final(self).focus_field == old(self).focus_field,
    {
        let _ = self.url.pop();
    }
}

proof fn lemma_decimal_digits(n: nat)
    ensures
        decimal(n).len() > 0,
        all_digits(decimal(n)),
        digits_value(decimal(n)) == n,
        is_digit(decimal(n)[0]),
    decreases n,
{
    let d = digit_char(n % 10);
    assert(is_digit(d) && (d as u32) - ('0' as u32) == n % 10);
    assert(((d as u32) - ('0' as u32)) as nat == n % 10);
    if n >= 10 {
        lemma_decimal_digits(n / 10);
        let s = decimal(n / 10);
        assert(decimal(n) == s.push(d));
        assert(decimal(n).drop_last() =~= s);
        assert(decimal(n).last() == d);
        assert(digits_value(decimal(n)) == digits_value(s) * 10 + ((d as u32) - ('0' as u32)) as nat);
        assert(n == (n / 10) * 10 + n % 10);
        assert(digits_value(s) == n / 10);
        assert(digits_value(decimal(n)) == n);
        assert forall|i: int| 0 <= i < decimal(n).len() implies #[trigger] is_digit(decimal(n)[i]) by {
            if i < s.len() {
                assert(decimal(n)[i] == s[i]);
            }
        }
        assert(decimal(n)[0] == s[0]);
    } else {
        assert(decimal(n) == seq![d]);
        assert(decimal(n).drop_last() =~= Seq::<char>::empty());
        assert(decimal(n).last() == d);
        assert(n % 10 == n);
        assert(digits_value(Seq::<char>::empty()) == 0);
        assert(digits_value(decimal(n)) == digits_value(decimal(n).drop_last()) * 10 + ((d as u32)
            - ('0' as u32)) as nat);
    }
}

/// A port written out in decimal digits reads back as the same port.
pub proof fn lemma_port_round_trip(p: u16)
    ensures
        parse_u16(decimal(p as nat)) == Some(p),
        port_of(decimal(p as nat)) == p,
{
    lemma_decimal_digits(p as nat);
    let s = decimal(p as nat);
    assert(s[0] != '+');
    assert(unsigned_digits(s) == s);
}

/// The focus never leaves the fields that the authentication type shows.
pub proof fn lemma_focus_stays_on_shown_fields(focus: nat, t: SshAuthType)
    ensures
        (focus + 1) % (last_field(t) + 1) <= last_field(t),
{
}

} // verus!
