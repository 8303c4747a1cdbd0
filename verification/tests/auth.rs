use tfs::auth::{
    auth_plan, auth_report, default_key_paths, host_key_answer, AuthFailure, AuthStep, HostKeyIssue,
};
use tfs::config::ServerConfig;
use tfs::input::{KeyCode, KeyEvent, KeyKind, Modifiers};

fn server(key: Option<&str>, password: &str) -> ServerConfig {
    ServerConfig {
        name: "Prod".into(),
        host: "1.2.3.4".into(),
        port: 22,
        user: "okan".into(),
        password: password.into(),
        key: key.map(|k| k.to_string()),
        key_passphrase: None,
    }
}

fn steps(plan: &[AuthStep]) -> Vec<Option<String>> {
    plan.iter()
        .map(|s| match s {
            AuthStep::Key(p) => Some(p.clone()),
            AuthStep::Password => None,
        })
        .collect()
}

fn press(code: KeyCode) -> KeyEvent {
    KeyEvent {
        code,
        modifiers: Modifiers { shift: false, ctrl: false, alt: false },
        kind: KeyKind::Press,
    }
}

#[test]
fn default_keys_are_tried_in_openssh_order() {
    assert_eq!(
        default_key_paths("/home/okan"),
        vec![
            "/home/okan/.ssh/id_ed25519".to_string(),
            "/home/okan/.ssh/id_ecdsa".to_string(),
            "/home/okan/.ssh/id_rsa".to_string(),
        ]
    );
}

#[test]
fn named_key_alone_then_password() {
    let plan = auth_plan(&server(Some("~/.ssh/is"), "p4rola"), Some("/home/okan"), &vec![true, true, true]);
    assert_eq!(steps(&plan), vec![Some("/home/okan/.ssh/is".to_string()), None]);
}

#[test]
fn existing_default_keys_then_no_password() {
    let plan = auth_plan(&server(None, ""), Some("/home/okan"), &vec![true, false, true]);
    assert_eq!(
        steps(&plan),
        vec![Some("/home/okan/.ssh/id_ed25519".to_string()), Some("/home/okan/.ssh/id_rsa".to_string())]
    );
}

#[test]
fn empty_key_counts_as_none() {
    let plan = auth_plan(&server(Some(""), "x"), Some("/home/okan"), &vec![false, true, false]);
    assert_eq!(steps(&plan), vec![Some("/home/okan/.ssh/id_ecdsa".to_string()), None]);
}

#[test]
fn without_home_only_the_password() {
    let plan = auth_plan(&server(None, "x"), None, &vec![]);
    assert_eq!(steps(&plan), vec![None]);
}

#[test]
fn nothing_to_try() {
    let plan = auth_plan(&server(None, ""), Some("/home/okan"), &vec![false, false, false]);
    assert!(plan.is_empty());
    assert_eq!(
        auth_report(&vec![]),
        "kimlik doğrulanamadı: denenecek yöntem yok (anahtar bulunamadı, parola boş)"
    );
}

#[test]
fn report_names_each_failed_method() {
    let tried = vec![
        (AuthStep::Key("/k1".into()), AuthFailure::Unreadable("izin yok".into())),
        (AuthStep::Key("/k2".into()), AuthFailure::Rejected),
        (AuthStep::Password, AuthFailure::Rejected),
    ];
    assert_eq!(
        auth_report(&tried),
        "kimlik doğrulanamadı — anahtar /k1: okunamadı (izin yok) · anahtar /k2: sunucu kabul etmedi · parola reddedildi"
    );
}

#[test]
fn unknown_key_can_be_accepted() {
    let issue = HostKeyIssue::Unknown { algorithm: "ssh-ed25519".into(), fingerprint: "SHA256:x".into() };
    assert!(issue.acceptable());
    assert_eq!(host_key_answer(&issue, &press(KeyCode::Char('e'))), Some(true));
    assert_eq!(host_key_answer(&issue, &press(KeyCode::Enter)), Some(true));
    assert_eq!(host_key_answer(&issue, &press(KeyCode::Esc)), Some(false));
    assert_eq!(host_key_answer(&issue, &press(KeyCode::Char('x'))), None);
}

#[test]
fn changed_key_has_no_accept_key() {
    let issue = HostKeyIssue::Changed { line: 7, fingerprint: "SHA256:y".into() };
    assert!(!issue.acceptable());
    assert_eq!(host_key_answer(&issue, &press(KeyCode::Char('e'))), None);
    assert_eq!(host_key_answer(&issue, &press(KeyCode::Enter)), Some(false));
    assert_eq!(host_key_answer(&issue, &press(KeyCode::Esc)), Some(false));
    let unreadable = HostKeyIssue::Unreadable("izin yok".into());
    assert_eq!(host_key_answer(&unreadable, &press(KeyCode::Char('E'))), None);
}
