use tfs::config::{expand_tilde, is_untouched_template, ServerConfig, TEMPLATE};

#[test]
fn tilde_ev_dizinine_acilir() {
    let home = "/home/okan";
    assert_eq!(
        expand_tilde("~/.ssh/id_rsa", Some(home)),
        std::path::Path::new(home).join(".ssh").join("id_rsa").to_string_lossy()
    );
    assert_eq!(expand_tilde("/etc/key", Some(home)), "/etc/key");
    assert_eq!(expand_tilde("anahtar", Some(home)), "anahtar");
    assert_eq!(expand_tilde("~baskasi/x", Some(home)), "~baskasi/x");
}

#[test]
fn key_path_bos_stringi_yok_sayar() {
    let s = ServerConfig {
        name: "A".into(),
        host: "h".into(),
        user: "u".into(),
        key: Some(String::new()),
        ..Default::default()
    };
    assert!(s.key_path(Some("/home/u")).is_none(), "boş `key` anahtar sayılmamalı");
}

#[test]
fn ev_dizini_yoksa_yol_oldugu_gibi_kalir() {
    assert_eq!(expand_tilde("~/a", None), "~/a");
    let s = ServerConfig { key: Some("~/k".into()), ..Default::default() };
    assert_eq!(s.key_path(Some("/r")).as_deref(), Some("/r/k"));
    assert_eq!(ServerConfig::default().key_path(Some("/r")), None);
}

#[test]
fn varsayilan_sunucu_bos_ve_port_22() {
    let s = ServerConfig::default();
    assert_eq!(s.port, 22);
    assert!(s.name.is_empty() && s.host.is_empty() && s.user.is_empty());
    assert!(s.key.is_none() && s.key_passphrase.is_none());
}

#[test]
fn dokunulmamis_sablon_taninir() {
    assert!(is_untouched_template(TEMPLATE));
    assert!(is_untouched_template(&TEMPLATE.replace('\n', "\r\n")));
    assert!(!is_untouched_template(&TEMPLATE.replace("Prod", "Test")));
    assert!(!is_untouched_template("{\"servers\":[]}"));
}

#[test]
fn gomulu_sablon_gecerli() {
    let c: serde_json::Value = serde_json::from_str(tfs::config::TEMPLATE).expect("şablon JSON olarak geçerli olmalı");
    let servers = c["servers"].as_array().expect("servers listesi olmalı");
    assert!(!servers.is_empty());
    assert!(
        servers.iter().any(|s| s.get("key").is_some()),
        "şablon anahtarla bağlanma örneğini de göstermeli"
    );
}
