//! Getting into a server: the order in which authentication methods are
//! tried (as OpenSSH does: public keys first, then the password), the report
//! when every one of them fails, and what may be done about a server key
//! that `known_hosts` does not vouch for.

use vstd::prelude::*;

use crate::config::{expand_tilde_spec, ServerConfig, ServerSpec};
use crate::input::KeyEvent;
use crate::paths::{joined_path, path_join};
use crate::session::{answer_of, confirm_answer};
use crate::text::owned;

verus! {

broadcast use vstd::string::group_string_axioms;

/// How many default key files there are.
pub const DEFAULT_KEY_COUNT: usize = 3;

/// The default key files under `~/.ssh`, in the order they are tried.
pub open spec fn default_key_name(i: int) -> Seq<char> {
    if i == 0 {
        "id_ed25519"@
    } else if i == 1 {
        "id_ecdsa"@
    } else {
        "id_rsa"@
    }
}

fn default_key_file(i: usize) -> (r: &'static str)
    requires
        i < DEFAULT_KEY_COUNT,
    ensures
        r@ == default_key_name(i as int),
{
    if i == 0 {
        "id_ed25519"
    } else if i == 1 {
        "id_ecdsa"
    } else {
        "id_rsa"
    }
}

/// The path of the `i`-th default key under the home directory `home`.
pub open spec fn default_key_path(home: Seq<char>, i: int) -> Seq<char> {
    joined_path(joined_path(home, ".ssh"@), default_key_name(i))
}

/// The default key files for the home directory `home`, in the order they
/// are tried (`~/.ssh/id_ed25519`, `id_ecdsa`, `id_rsa`).
pub fn default_key_paths(home: &str) -> (r: Vec<String>)
    ensures
        r@.len() == DEFAULT_KEY_COUNT,
        forall|i: int| 0 <= i < DEFAULT_KEY_COUNT ==> #[trigger] r@[i]@ == default_key_path(home@, i),
{
    let dir = path_join(home, ".ssh");
    let mut r: Vec<String> = Vec::new();
    let mut i: usize = 0;
    while i < DEFAULT_KEY_COUNT
        invariant
            i <= DEFAULT_KEY_COUNT,
            dir@ == joined_path(home@, ".ssh"@),
            r@.len() == i,
            forall|j: int| 0 <= j < i ==> #[trigger] r@[j]@ == default_key_path(home@, j),
        decreases DEFAULT_KEY_COUNT - i,
    {
        r.push(path_join(dir.as_str(), default_key_file(i)));
        i = i + 1;
    }
    r
}

/// One authentication attempt.
#[derive(Debug, Clone)]
pub enum AuthStep {
    /// The private key in this file (decrypted with the entry's passphrase
    /// when it has one).
    Key(String),
    /// The entry's password.
    Password,
}

/// A step as a value: the key file, or `None` for the password.
pub open spec fn step_view(s: AuthStep) -> Option<Seq<char>> {
    match s {
        AuthStep::Key(p) => Some(p@),
        AuthStep::Password => None,
    }
}

/// The view of an optional string slice.
pub open spec fn opt_str(o: Option<&str>) -> Option<Seq<char>> {
    match o {
        Some(s) => Some(s@),
        None => None,
    }
}

/// The default keys among the first `n` that exist (`present[i]`: the
/// `i`-th default key file exists), in order.
pub open spec fn defaults_upto(home: Seq<char>, present: Seq<bool>, n: int) -> Seq<Option<Seq<char>>>
    decreases n,
{
    if n <= 0 {
        Seq::empty()
    } else {
        defaults_upto(home, present, n - 1) + if n - 1 < present.len() && present[n - 1] {
            seq![Some(default_key_path(home, n - 1))]
        } else {
            Seq::empty()
        }
    }
}

/// The key attempts: the key the entry names, alone; otherwise the default
/// keys that exist; none when the entry names no key and the home directory
/// is unknown.
pub open spec fn key_steps(key: Option<Seq<char>>, home: Option<Seq<char>>, present: Seq<bool>) -> Seq<
    Option<Seq<char>>,
> {
    match key {
        Some(k) if k.len() > 0 => seq![Some(expand_tilde_spec(k, home))],
        _ => match home {
            Some(h) => defaults_upto(h, present, DEFAULT_KEY_COUNT as int),
            None => Seq::empty(),
        },
    }
}

/// Every attempt, in order: the key attempts, then the password when the
/// entry has one.
pub open spec fn auth_plan_spec(s: ServerSpec, home: Option<Seq<char>>, present: Seq<bool>) -> Seq<
    Option<Seq<char>>,
> {
    key_steps(s.key, home, present) + if s.password.len() > 0 {
        seq![None::<Seq<char>>]
    } else {
        Seq::empty()
    }
}

/// The authentication attempts for a server entry, in the order they are
/// made. `home` is the user's home directory when known; `present[i]` says
/// whether the `i`-th of `default_key_paths(home)` exists.
pub fn auth_plan(s: &ServerConfig, home: Option<&str>, present: &Vec<bool>) -> (r: Vec<AuthStep>)
    ensures
        r@.map_values(|a: AuthStep| step_view(a)) == auth_plan_spec(s@, opt_str(home), present@),
{
    let mut r: Vec<AuthStep> = Vec::new();
    match s.key_path(home) {
        Some(p) => {
            r.push(AuthStep::Key(p));
            assert(r@.map_values(|a: AuthStep| step_view(a)) =~= key_steps(s@.key, opt_str(home), present@));
        },
        None => match home {
            Some(h) => {
                let paths = default_key_paths(h);
                let mut i: usize = 0;
                assert(r@.map_values(|a: AuthStep| step_view(a)) =~= defaults_upto(h@, present@, 0));
                while i < DEFAULT_KEY_COUNT
                    invariant
                        i <= DEFAULT_KEY_COUNT,
                        paths@.len() == DEFAULT_KEY_COUNT,
                        forall|j: int| 0 <= j < DEFAULT_KEY_COUNT ==> #[trigger] paths@[j]@ == default_key_path(h@, j),
                        r@.map_values(|a: AuthStep| step_view(a)) == defaults_upto(h@, present@, i as int),
                    decreases DEFAULT_KEY_COUNT - i,
                {
                    let ghost before = r@;
                    if i < present.len() && present[i] {
                        r.push(AuthStep::Key(paths[i].clone()));
                        assert(r@.map_values(|a: AuthStep| step_view(a)) =~= before.map_values(
                            |a: AuthStep| step_view(a),
                        ) + seq![Some(default_key_path(h@, i as int))]);
                    } else {
                        assert(r@.map_values(|a: AuthStep| step_view(a)) =~= before.map_values(
                            |a: AuthStep| step_view(a),
                        ) + Seq::<Option<Seq<char>>>::empty());
                    }
                    i = i + 1;
                }
                assert(r@.map_values(|a: AuthStep| step_view(a)) == key_steps(s@.key, opt_str(home), present@));
            },
            None => {
                assert(r@.map_values(|a: AuthStep| step_view(a)) =~= key_steps(s@.key, opt_str(home), present@));
            },
        },
    }
    let ghost keys = r@;
    if s.password.as_str().unicode_len() > 0 {
        r.push(AuthStep::Password);
        assert(r@.map_values(|a: AuthStep| step_view(a)) =~= keys.map_values(|a: AuthStep| step_view(a))
            + seq![None::<Seq<char>>]);
    } else {
        assert(r@.map_values(|a: AuthStep| step_view(a)) =~= keys.map_values(|a: AuthStep| step_view(a))
            + Seq::<Option<Seq<char>>>::empty());
    }
    r
}

} // verus!

verus! {

/// Why an attempt failed.
#[derive(Debug)]
pub enum AuthFailure {
    /// The key file could not be read or decrypted.
    Unreadable(String),
    /// The server did not accept it.
    Rejected,
}

/// A failure as a value: the reason text when the key could not be read,
/// `None` when the server refused.
pub open spec fn failure_view(f: AuthFailure) -> Option<Seq<char>> {
    match f {
        AuthFailure::Unreadable(e) => Some(e@),
        AuthFailure::Rejected => None,
    }
}

/// What one failed attempt says: which method, and why it failed.
pub open spec fn attempt_text(step: Option<Seq<char>>, failure: Option<Seq<char>>) -> Seq<char> {
    match (step, failure) {
        (Some(p), Some(e)) => "anahtar "@ + p + ": okunamadı ("@ + e + ")"@,
        (Some(p), None) => "anahtar "@ + p + ": sunucu kabul etmedi"@,
        (None, Some(e)) => "parola: "@ + e,
        (None, None) => "parola reddedildi"@,
    }
}

/// The failed attempts `tried[..n]`, joined by ` · `.
pub open spec fn attempts_text(tried: Seq<(AuthStep, AuthFailure)>, n: int) -> Seq<char>
    decreases n,
{
    if n <= 0 {
        Seq::empty()
    } else if n == 1 {
        attempt_text(step_view(tried[0].0), failure_view(tried[0].1))
    } else {
        attempts_text(tried, n - 1) + " · "@ + attempt_text(
            step_view(tried[n - 1].0),
            failure_view(tried[n - 1].1),
        )
    }
}

/// The error when no attempt succeeded: each method tried and why it
/// failed, or that there was nothing to try.
pub open spec fn auth_report_text(tried: Seq<(AuthStep, AuthFailure)>) -> Seq<char> {
    if tried.len() == 0 {
        "kimlik doğrulanamadı: denenecek yöntem yok (anahtar bulunamadı, parola boş)"@
    } else {
        "kimlik doğrulanamadı — "@ + attempts_text(tried, tried.len() as int)
    }
}

fn push_attempt(out: &mut String, step: &AuthStep, failure: &AuthFailure)
    ensures
        final(out)@ == old(out)@ + attempt_text(step_view(*step), failure_view(*failure)),
{
    let ghost start = out@;
    match (step, failure) {
        (AuthStep::Key(p), AuthFailure::Unreadable(e)) => {
            out.append("anahtar ");
            out.append(p.as_str());
            out.append(": okunamadı (");
            out.append(e.as_str());
            out.append(")");
        },
        (AuthStep::Key(p), AuthFailure::Rejected) => {
            out.append("anahtar ");
            out.append(p.as_str());
            out.append(": sunucu kabul etmedi");
        },
        (AuthStep::Password, AuthFailure::Unreadable(e)) => {
            out.append("parola: ");
            out.append(e.as_str());
        },
        (AuthStep::Password, AuthFailure::Rejected) => {
            out.append("parola reddedildi");
        },
    }
    assert(out@ =~= start + attempt_text(step_view(*step), failure_view(*failure)));
}

/// The error reported when every attempt failed: which methods were tried
/// and why each failed (key unreadable, key or password refused).
pub fn auth_report(tried: &Vec<(AuthStep, AuthFailure)>) -> (r: String)
    ensures
        r@ == auth_report_text(tried@),
{
    if tried.len() == 0 {
        return owned("kimlik doğrulanamadı: denenecek yöntem yok (anahtar bulunamadı, parola boş)");
    }
    let mut out = owned("kimlik doğrulanamadı — ");
    let ghost head = out@;
    let mut i: usize = 0;
    while i < tried.len()
        invariant
            i <= tried@.len(),
            tried@.len() > 0,
            head == "kimlik doğrulanamadı — "@,
            out@ == head + attempts_text(tried@, i as int),
        decreases tried@.len() - i,
    {
        let ghost before = out@;
        if i > 0 {
            out.append(" · ");
        }
        push_attempt(&mut out, &tried[i].0, &tried[i].1);
        proof {
            if i == 0 {
                assert(attempts_text(tried@, 0) =~= Seq::<char>::empty());
                assert(out@ =~= head + attempts_text(tried@, 1));
            } else {
                assert(out@ =~= head + attempts_text(tried@, i + 1));
            }
        }
        i = i + 1;
    }
    out
}

/// Why `known_hosts` does not vouch for a server key.
#[derive(Debug, Clone)]
pub enum HostKeyIssue {
    /// No key is recorded for the server: the first connection.
    Unknown { algorithm: String, fingerprint: String },
    /// A different key of the same type is recorded, at this line.
    Changed { line: usize, fingerprint: String },
    /// The file could not be read or checked.
    Unreadable(String),
}

impl HostKeyIssue {
    /// Only a first-time key may be accepted. A changed key is the mark of
    /// a man in the middle; accepting it with one key press would defeat
    /// the check, so the record has to be fixed by hand.
    pub fn acceptable(&self) -> (b: bool)
        ensures
            b == (*self is Unknown),
    {
        match self {
            HostKeyIssue::Unknown { .. } => true,
            _ => false,
        }
    }
}

/// The answer to the host-key prompt for a key press: `Some(true)` accept
/// the key and connect, `Some(false)` give up, `None` keep asking.
pub fn host_key_answer(issue: &HostKeyIssue, k: &KeyEvent) -> (r: Option<bool>)
    ensures
        r == answer_of(*k, *issue is Unknown),
{
    confirm_answer(k, issue.acceptable())
}

/// A changed or unreadable server key is never accepted, whatever key is
/// pressed.
pub proof fn law_changed_key_never_accepted(issue: HostKeyIssue, k: KeyEvent)
    requires
        !(issue is Unknown),
    ensures
        answer_of(k, issue is Unknown) != Some(true),
{
}

/// A named key is the only key tried; the password, when there is one,
/// comes last.
pub proof fn law_named_key_then_password(s: ServerSpec, home: Option<Seq<char>>, present: Seq<bool>)
    requires
        s.key matches Some(k) && k.len() > 0,
    ensures
        auth_plan_spec(s, home, present).len() == if s.password.len() > 0 {
            2int
        } else {
            1int
        },
        auth_plan_spec(s, home, present)[0] is Some,
        s.password.len() > 0 ==> auth_plan_spec(s, home, present)[1] is None,
{
}

proof fn lemma_defaults_are_keys(home: Seq<char>, present: Seq<bool>, n: int)
    ensures
        forall|i: int|
            0 <= i < defaults_upto(home, present, n).len() ==> #[trigger] defaults_upto(
                home,
                present,
                n,
            )[i] is Some,
    decreases n,
{
    if n > 0 {
        lemma_defaults_are_keys(home, present, n - 1);
    }
}

/// Every key is tried before the password, and the password is tried once,
/// last, exactly when the entry has one.
pub proof fn law_keys_before_password(s: ServerSpec, home: Option<Seq<char>>, present: Seq<bool>)
    ensures
        forall|i: int|
            0 <= i < auth_plan_spec(s, home, present).len() - 1 ==> #[trigger] auth_plan_spec(
                s,
                home,
                present,
            )[i] is Some,
        (auth_plan_spec(s, home, present).len() > 0 && auth_plan_spec(s, home, present).last() is None)
            <==> s.password.len() > 0,
{
    let keys = key_steps(s.key, home, present);
    match home {
        Some(h) => lemma_defaults_are_keys(h, present, DEFAULT_KEY_COUNT as int),
        None => {},
    }
    assert(forall|i: int| 0 <= i < keys.len() ==> #[trigger] keys[i] is Some);
}

} // verus!
