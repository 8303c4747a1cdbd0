//! Server configuration: what a saved connection holds, `~` expansion of key
//! paths, and recognising a configuration file that is still the template.

use vstd::prelude::*;

use crate::paths::{joined_path, path_join};
use crate::text::{chars_of, has_prefix, owned, push_char, starts_with};

verus! {

broadcast use vstd::string::group_string_axioms;

/// The template written on first run: the documented file format, with a
/// password entry, a key entry and an encrypted-key entry.
pub const TEMPLATE: &'static str = "{\n  \"servers\": [\n    { \"name\": \"Prod\", \"host\": \"1.2.3.4\", \"port\": 22, \"user\": \"okan\", \"password\": \"***\" },\n    { \"name\": \"Anahtarla\", \"host\": \"sunucu.example.com\", \"user\": \"okan\",\n      \"key\": \"~/.ssh/id_ed25519\" },\n    { \"name\": \"Şifreli anahtar\", \"host\": \"test.local\", \"user\": \"root\",\n      \"key\": \"~/.ssh/id_rsa\", \"key_passphrase\": \"***\" }\n  ]\n}\n";

/// The SSH port used when none is given.
pub fn default_port() -> (p: u16)
    ensures
        p == 22,
{
    22
}

/// One SSH server.
///
/// Authentication follows OpenSSH: public key first, then password.
#[derive(Debug, Clone)]
pub struct ServerConfig {
    /// Name shown in the list.
    pub name: String,
    pub host: String,
    pub port: u16,
    pub user: String,
    /// Password; may be left empty when a key is used.
    pub password: String,
    /// Private key file (e.g. `~/.ssh/id_ed25519`). When empty the default
    /// keys (`id_ed25519`, `id_ecdsa`, `id_rsa`) are tried.
    pub key: Option<String>,
    /// Passphrase of an encrypted key.
    pub key_passphrase: Option<String>,
}

impl Default for ServerConfig {
    /// The empty form for "new connection".
    fn default() -> (s: ServerConfig)
        ensures
            s.name@ == Seq::<char>::empty(),
            s.host@ == Seq::<char>::empty(),
            s.port == 22,
            s.user@ == Seq::<char>::empty(),
            s.password@ == Seq::<char>::empty(),
            s.key is None,
            s.key_passphrase is None,
    {
        ServerConfig {
            name: String::new(),
            host: String::new(),
            port: default_port(),
            user: String::new(),
            password: String::new(),
            key: None,
            key_passphrase: None,
        }
    }
}

/// The text values of a server entry.
pub struct ServerSpec {
    pub name: Seq<char>,
    pub host: Seq<char>,
    pub port: u16,
    pub user: Seq<char>,
    pub password: Seq<char>,
    pub key: Option<Seq<char>>,
    pub key_passphrase: Option<Seq<char>>,
}

/// The view of an optional string.
pub open spec fn opt_view(o: Option<String>) -> Option<Seq<char>> {
    match o {
        Some(s) => Some(s@),
        None => None,
    }
}

impl View for ServerConfig {
    type V = ServerSpec;

    open spec fn view(&self) -> ServerSpec {
        ServerSpec {
            name: self.name@,
            host: self.host@,
            port: self.port,
            user: self.user@,
            password: self.password@,
            key: opt_view(self.key),
            key_passphrase: opt_view(self.key_passphrase),
        }
    }
}

/// A copy of an optional string.
pub fn copy_opt(o: &Option<String>) -> (r: Option<String>)
    ensures
        r == *o,
{
    match o {
        Some(s) => Some(s.clone()),
        None => None,
    }
}

impl ServerConfig {
    /// An exact copy of the entry.
    pub fn duplicate(&self) -> (r: ServerConfig)
        ensures
            r == *self,
    {
        ServerConfig {
            name: self.name.clone(),
            host: self.host.clone(),
            port: self.port,
            user: self.user.clone(),
            password: self.password.clone(),
            key: copy_opt(&self.key),
            key_passphrase: copy_opt(&self.key_passphrase),
        }
    }
}

/// What follows a leading `~/` (or `~\`), if `p` starts with one.
pub open spec fn tilde_rest(p: Seq<char>) -> Option<Seq<char>> {
    if has_prefix(p, seq!['~', '/']) || has_prefix(p, seq!['~', '\\']) {
        Some(p.skip(2))
    } else {
        None
    }
}

/// `p` with a leading `~/` replaced by the home directory `home` (when it is
/// known); any other path is left alone (`~user/...` names another user).
pub open spec fn expand_tilde_spec(p: Seq<char>, home: Option<Seq<char>>) -> Seq<char> {
    match (tilde_rest(p), home) {
        (Some(rest), Some(h)) => joined_path(h, rest),
        _ => p,
    }
}

/// The characters of `s` from position `from` on.
fn chars_from(s: &str, from: usize) -> (r: String)
    requires
        from <= s@.len(),
    ensures
        r@ == s@.skip(from as int),
{
    let cs = chars_of(s);
    let mut r = String::new();
    let mut i: usize = from;
    while i < cs.len()
        invariant
            from <= i <= cs@.len(),
            cs@ == s@,
            r@ == s@.subrange(from as int, i as int),
        decreases cs@.len() - i,
    {
        push_char(&mut r, cs[i]);
        assert(s@.subrange(from as int, i + 1) =~= s@.subrange(from as int, i as int).push(
            cs@[i as int],
        ));
        i = i + 1;
    }
    r
}

/// Expands a leading `~/` to the home directory, so the JSON need not hold
/// absolute paths. `home` is the user's home directory, when known.
pub fn expand_tilde(p: &str, home: Option<&str>) -> (r: String)
    ensures
        r@ == expand_tilde_spec(
            p@,
            match home {
                Some(h) => Some(h@),
                None => None,
            },
        ),
{
    proof {
        reveal_strlit("~/");
        reveal_strlit("~\\");
    }
    let tilde = starts_with(p, "~/") || starts_with(p, "~\\");
    assert(tilde == tilde_rest(p@) is Some) by {
        assert("~/"@ =~= seq!['~', '/']);
        assert("~\\"@ =~= seq!['~', '\\']);
    }
    if !tilde {
        return owned(p);
    }
    match home {
        Some(h) => {
            let rest = chars_from(p, 2);
            path_join(h, rest.as_str())
        },
        None => owned(p),
    }
}

impl ServerConfig {
    /// The key file with `~` expanded; none when `key` is missing or empty.
    pub fn key_path(&self, home: Option<&str>) -> (r: Option<String>)
        ensures
            match self.key {
                Some(k) if k@.len() > 0 => r matches Some(p) && p@ == expand_tilde_spec(
                    k@,
                    match home {
                        Some(h) => Some(h@),
                        None => None,
                    },
                ),
                _ => r is None,
            },
    {
        match &self.key {
            Some(k) => {
                if k.as_str().unicode_len() == 0 {
                    None
                } else {
                    Some(expand_tilde(k.as_str(), home))
                }
            },
            None => None,
        }
    }
}

/// Root of config.json.
#[derive(Debug)]
pub struct Config {
    pub servers: Vec<ServerConfig>,
}

/// Result of loading: a usable configuration, or a template nobody filled in.
pub enum Loaded {
    /// Real server data was read.
    Ready(Config),
    /// The file did not exist (the template was written) or is still the
    /// untouched template. The caller treats this as an empty list.
    NeedsEditing,
}

/// `s` with every `\r\n` replaced by `\n` (as `str::replace` does it, left
/// to right).
pub open spec fn crlf_to_lf(s: Seq<char>) -> Seq<char>
    decreases s.len(),
{
    if s.len() == 0 {
        s
    } else if s.len() >= 2 && s[0] == '\r' && s[1] == '\n' {
        seq!['\n'] + crlf_to_lf(s.skip(2))
    } else {
        seq![s[0]] + crlf_to_lf(s.drop_first())
    }
}

/// Line endings normalised to `\n`.
pub fn normalize_newlines(s: &str) -> (r: Vec<char>)
    ensures
        r@ == crlf_to_lf(s@),
{
    let cs = chars_of(s);
    let mut out: Vec<char> = Vec::new();
    let mut i: usize = 0;
    assert(cs@.skip(0) =~= cs@);
    assert(out@ + crlf_to_lf(cs@) =~= crlf_to_lf(cs@));
    while i < cs.len()
        invariant
            i <= cs@.len(),
            cs@ == s@,
            crlf_to_lf(s@) == out@ + crlf_to_lf(cs@.skip(i as int)),
        decreases cs@.len() - i,
    {
        let ghost rest = cs@.skip(i as int);
        if i + 1 < cs.len() && cs[i] == '\r' && cs[i + 1] == '\n' {
            out.push('\n');
            proof {
                assert(rest.skip(2) =~= cs@.skip(i + 2));
                assert(crlf_to_lf(rest) == seq!['\n'] + crlf_to_lf(rest.skip(2)));
                assert(out@ + crlf_to_lf(cs@.skip(i + 2)) =~= (out@.drop_last() + seq!['\n'])
                    + crlf_to_lf(rest.skip(2)));
            }
            i = i + 2;
        } else {
            out.push(cs[i]);
            proof {
                assert(rest.drop_first() =~= cs@.skip(i + 1));
                assert(crlf_to_lf(rest) == seq![rest[0]] + crlf_to_lf(rest.drop_first()));
                assert(out@ + crlf_to_lf(cs@.skip(i + 1)) =~= (out@.drop_last() + seq![rest[0]])
                    + crlf_to_lf(rest.drop_first()));
            }
            i = i + 1;
        }
    }
    proof {
        assert(cs@.skip(i as int) =~= Seq::<char>::empty());
        assert(out@ + Seq::<char>::empty() =~= out@);
    }
    out
}

/// The file still holds the template word for word (line endings aside):
/// its made-up servers must not be listed.
pub fn is_untouched_template(text: &str) -> (b: bool)
    ensures
        b == (crlf_to_lf(text@) == crlf_to_lf(TEMPLATE@)),
{
    let a = normalize_newlines(text);
    let t = normalize_newlines(TEMPLATE);
    if a.len() != t.len() {
        return false;
    }
    let mut i: usize = 0;
    while i < a.len()
        invariant
            a@ == crlf_to_lf(text@),
            t@ == crlf_to_lf(TEMPLATE@),
            a@.len() == t@.len(),
            i <= a@.len(),
            forall|k: int| 0 <= k < i ==> a@[k] == t@[k],
        decreases a@.len() - i,
    {
        if a[i] != t[i] {
            assert(a@[i as int] != t@[i as int]);
            return false;
        }
        i = i + 1;
    }
    assert(a@ =~= t@);
    true
}

} // verus!
