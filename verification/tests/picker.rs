use tfs::config::ServerConfig;
use tfs::geometry::Rect;
use tfs::input::{KeyCode, KeyEvent, KeyKind, Modifiers, MouseButton, MouseEvent, MouseKind};
use tfs::picker::{
    bayt, button_text, eslesir, kirp, ortala, parse_u16, Action, Form, Manager, Mode, F_KEY,
    F_NAME, F_PASS, F_PORT,
};

fn form_ile(alanlar: [&str; 7]) -> Form {
    let mut f = Form::new(None, &ServerConfig::default());
    for (i, v) in alanlar.iter().enumerate() {
        f.fields[i] = v.to_string();
    }
    f
}

fn ornek_sunucular() -> Vec<ServerConfig> {
    vec![
        ServerConfig {
            name: "Prod Sunucu".into(),
            host: "1.2.3.4".into(),
            port: 22,
            user: "okan".into(),
            password: "gizli".into(),
            ..Default::default()
        },
        ServerConfig {
            name: "Anahtarlı".into(),
            host: "sunucu.example.com".into(),
            user: "root".into(),
            key: Some("~/.ssh/id_ed25519".into()),
            key_passphrase: Some("pp".into()),
            ..Default::default()
        },
    ]
}

fn yonetici(servers: Vec<ServerConfig>) -> Manager {
    let mut m = Manager {
        servers,
        path: "config.json".into(),
        view: Vec::new(),
        query: String::new(),
        selected: 0,
        offset: 0,
        list_area: Rect::default(),
        buttons: Vec::new(),
        status: String::new(),
        mode: Mode::List,
        quit: false,
        save_pending: false,
    };
    m.refilter();
    m
}

fn key(code: KeyCode) -> KeyEvent {
    KeyEvent {
        code,
        modifiers: Modifiers { shift: false, ctrl: false, alt: false },
        kind: KeyKind::Press,
    }
}

fn with(code: KeyCode, shift: bool, ctrl: bool, alt: bool) -> KeyEvent {
    KeyEvent { code, modifiers: Modifiers { shift, ctrl, alt }, kind: KeyKind::Press }
}

fn names(m: &Manager) -> Vec<String> {
    m.servers.iter().map(|s| s.name.clone()).collect()
}

#[test]
fn bos_liste_cizilir() {
    let mut m = yonetici(Vec::new());
    m.act(Action::Edit);
    m.act(Action::Copy);
    m.act(Action::Delete);
    m.act(Action::MoveUp);
    assert!(matches!(m.mode, Mode::List));
}

#[test]
fn siralama_arama_acikken_kapali() {
    let mut m = yonetici(ornek_sunucular());
    m.query = "anahtar".into();
    m.refilter();
    m.act(Action::MoveUp);
    assert_eq!(m.servers[0].name, "Prod Sunucu", "sıra değişmemeli");
    assert!(m.status.contains("aramayı temizleyin"));
}

#[test]
fn form_gecerli_kaydi_uretir() {
    let f = form_ile(["Prod", "1.2.3.4", "2222", "okan", "p4rola", "~/.ssh/id_ed25519", ""]);
    let sc = f.build().expect("geçerli form");
    assert_eq!(sc.name, "Prod");
    assert_eq!(sc.port, 2222);
    assert_eq!(sc.password, "p4rola");
    assert_eq!(sc.key.as_deref(), Some("~/.ssh/id_ed25519"));
    assert!(sc.key_passphrase.is_none());
}

#[test]
fn form_bos_port_22ye_duser_ad_bosken_hostu_alir() {
    let f = form_ile(["", "sunucu.local", "", "root", "", "", ""]);
    let sc = f.build().unwrap();
    assert_eq!(sc.port, 22);
    assert_eq!(sc.name, "sunucu.local", "adsız satır listede görünmesin");
    assert!(sc.password.is_empty());
}

#[test]
fn form_host_ve_kullanici_zorunlu() {
    assert!(form_ile(["A", "", "22", "root", "", "", ""]).build().is_err());
    assert!(form_ile(["A", "h", "22", "", "", "", ""]).build().is_err());
    assert!(form_ile(["A", "h", "70000", "root", "", "", ""]).build().is_err());
    assert!(form_ile(["A", "h", "0", "root", "", "", ""]).build().is_err());
}

#[test]
fn parola_trimlenmez_digerleri_trimlenir() {
    let f = form_ile(["  Ad  ", "  host  ", "22", "  root  ", "  gizli  ", "", ""]);
    let sc = f.build().unwrap();
    assert_eq!(sc.name, "Ad");
    assert_eq!(sc.host, "host");
    assert_eq!(sc.user, "root");
    assert_eq!(sc.password, "  gizli  ");
}

#[test]
fn port_alani_yalniz_rakam_alir() {
    let mut f = Form::new(None, &ServerConfig::default());
    f.cur = F_PORT;
    f.fields[F_PORT].clear();
    f.cursor = 0;
    for c in "2a2b".chars() {
        f.insert(c);
    }
    assert_eq!(f.fields[F_PORT], "22");
}

#[test]
fn utf8_alanda_imlec_ve_silme_panik_etmez() {
    let mut f = Form::new(None, &ServerConfig::default());
    f.cur = F_NAME;
    for c in "İstanbul".chars() {
        f.insert(c);
    }
    assert_eq!(f.fields[F_NAME], "İstanbul");
    assert_eq!(f.cursor, 8, "imleç karakter sayar, bayt değil");

    f.cursor = 0;
    f.delete();
    assert_eq!(f.fields[F_NAME], "stanbul");

    f.cursor = f.fields[F_NAME].chars().count();
    f.backspace();
    assert_eq!(f.fields[F_NAME], "stanbu");

    f.cursor = 0;
    f.backspace();
    assert_eq!(f.fields[F_NAME], "stanbu");
}

#[test]
fn arama_ad_host_ve_kullaniciyi_tarar() {
    let s = ServerConfig {
        name: "Prod".into(),
        host: "10.0.0.5".into(),
        user: "deploy".into(),
        ..Default::default()
    };
    assert!(eslesir(&s, "prod"), "ada göre");
    assert!(eslesir(&s, "10.0"), "host'a göre");
    assert!(eslesir(&s, "deploy"), "kullanıcıya göre");
    assert!(!eslesir(&s, "test"));
}

#[test]
fn yeni_yonetici_karsilama_metni() {
    let m = Manager::new(Vec::new(), "a.json".into());
    assert_eq!(m.status, "Henüz bağlantı yok — [+ Yeni] (F5) ile ekleyin. Dosya: a.json");
    let m = Manager::new(ornek_sunucular(), "b.json".into());
    assert_eq!(m.status, "Enter / tıkla: bağlan · yaz: ara · Esc: çık · b.json");
    assert_eq!(m.view, vec![0, 1]);
}

#[test]
fn arama_secimi_ayni_sunucuda_tutar() {
    let mut m = yonetici(ornek_sunucular());
    m.select(1);
    assert_eq!(m.current(), Some(1));
    m.on_key(&key(KeyCode::Char('e')));
    m.on_key(&key(KeyCode::Char('x')));
    assert_eq!(m.query, "ex");
    assert_eq!(m.view, vec![1]);
    assert_eq!(m.current(), Some(1));
    m.on_key(&key(KeyCode::Backspace));
    assert_eq!(m.query, "e");
    assert_eq!(m.current(), Some(1));
    m.on_key(&key(KeyCode::Esc));
    assert!(m.query.is_empty());
    assert!(!m.quit);
    m.on_key(&key(KeyCode::Esc));
    assert!(m.quit);
}

#[test]
fn enter_secili_sunucuya_baglanir() {
    let mut m = yonetici(ornek_sunucular());
    assert_eq!(m.on_key(&key(KeyCode::Down)), None);
    assert_eq!(m.on_key(&key(KeyCode::Enter)), Some(1));
    assert_eq!(m.on_key(&key(KeyCode::End)), None);
    assert_eq!(m.selected, 1);
    m.on_key(&key(KeyCode::Home));
    assert_eq!(m.selected, 0);
    m.on_key(&with(KeyCode::Char('q'), false, true, false));
    assert!(m.quit);
}

#[test]
fn kopya_hemen_altina_eklenir_ve_secilir() {
    let mut m = yonetici(ornek_sunucular());
    m.act(Action::Copy);
    assert_eq!(names(&m), ["Prod Sunucu", "Prod Sunucu (kopya)", "Anahtarlı"]);
    assert_eq!(m.current(), Some(1));
    assert!(m.save_pending);
    m.saved(None);
    assert_eq!(m.status, "Kaydedildi → config.json");
    assert!(!m.save_pending);
    m.saved(Some("disk dolu".into()));
    assert_eq!(m.status, "KAYDEDİLEMEDİ: disk dolu");
}

#[test]
fn silme_onayi_e_ile_siler_baska_tusla_vazgecer() {
    let mut m = yonetici(ornek_sunucular());
    m.act(Action::Delete);
    assert!(matches!(&m.mode, Mode::Confirm { index: 0, name } if name.as_str() == "Prod Sunucu"));
    m.on_key(&key(KeyCode::Char('x')));
    assert!(matches!(m.mode, Mode::List));
    assert_eq!(m.servers.len(), 2);
    m.act(Action::Delete);
    m.on_key(&key(KeyCode::Char('e')));
    assert!(matches!(m.mode, Mode::List));
    assert_eq!(names(&m), ["Anahtarlı"]);
    assert!(m.save_pending);
}

#[test]
fn sirala_asagi_ve_yukari_tasir() {
    let mut m = yonetici(ornek_sunucular());
    m.on_key(&with(KeyCode::Down, false, false, true));
    assert_eq!(names(&m), ["Anahtarlı", "Prod Sunucu"]);
    assert_eq!(m.selected, 1);
    m.on_key(&with(KeyCode::Down, false, false, true));
    assert_eq!(names(&m), ["Anahtarlı", "Prod Sunucu"], "sonda yerinde kalır");
    m.on_key(&with(KeyCode::Up, false, false, true));
    assert_eq!(names(&m), ["Prod Sunucu", "Anahtarlı"]);
    assert_eq!(m.selected, 0);
}

#[test]
fn yeni_form_kaydedilince_listeye_eklenir() {
    let mut m = yonetici(ornek_sunucular());
    m.query = "prod".into();
    m.refilter();
    m.on_key(&key(KeyCode::F(5)));
    assert!(matches!(m.mode, Mode::Form(_)));
    for c in "web".chars() {
        m.on_key(&key(KeyCode::Char(c)));
    }
    m.on_key(&key(KeyCode::Tab));
    for c in "w.local".chars() {
        m.on_key(&key(KeyCode::Char(c)));
    }
    m.on_key(&key(KeyCode::Enter));
    assert!(matches!(&m.mode, Mode::Form(f) if f.error.as_deref() == Some("Kullanıcı adı boş olamaz.")));
    m.on_key(&key(KeyCode::Down));
    m.on_key(&key(KeyCode::Down));
    for c in "u".chars() {
        m.on_key(&key(KeyCode::Char(c)));
    }
    m.on_key(&key(KeyCode::Enter));
    assert!(matches!(m.mode, Mode::List));
    assert_eq!(m.servers.len(), 3);
    assert_eq!(m.servers[2].name, "web");
    assert_eq!(m.servers[2].host, "w.local");
    assert_eq!(m.servers[2].user, "u");
    assert!(m.query.is_empty(), "yeni kayıt aramaya takılınca arama temizlenir");
    assert_eq!(m.current(), Some(2));
}

#[test]
fn form_esc_ile_kapanir_ve_hicbir_sey_yazilmaz() {
    let mut m = yonetici(ornek_sunucular());
    m.on_key(&key(KeyCode::F(4)));
    assert!(matches!(&m.mode, Mode::Form(f) if f.target == Some(0) && f.fields[0] == "Prod Sunucu"));
    m.on_key(&key(KeyCode::Char('!')));
    m.on_key(&key(KeyCode::Esc));
    assert!(matches!(m.mode, Mode::List));
    assert_eq!(m.servers[0].name, "Prod Sunucu");
    assert!(!m.save_pending);
}

#[test]
fn form_tuslari_imleci_ve_alanlari_gezer() {
    let mut m = yonetici(ornek_sunucular());
    m.on_key(&key(KeyCode::F(4)));
    m.on_key(&key(KeyCode::Left));
    m.on_key(&key(KeyCode::Home));
    m.on_key(&key(KeyCode::Right));
    m.on_key(&with(KeyCode::Tab, true, false, false));
    m.on_key(&key(KeyCode::F(9)));
    match &m.mode {
        Mode::Form(f) => {
            assert_eq!(f.cur, 6, "Shift+Tab baştan sona sarar");
            assert_eq!(f.cursor, 0);
            assert!(f.show_secrets);
        }
        _ => panic!("form açık olmalı"),
    }
}

#[test]
fn tiklama_listede_baglanir_arac_cubugunda_eylem_yapar() {
    let mut m = yonetici(ornek_sunucular());
    m.set_list_area(Rect { x: 1, y: 1, width: 30, height: 5 });
    m.set_toolbar(Rect { x: 0, y: 10, width: 80, height: 1 });
    let down = |col, row| MouseEvent { kind: MouseKind::Down(MouseButton::Left), column: col, row };
    assert_eq!(m.on_mouse(&down(3, 2)), Some(1));
    assert_eq!(m.on_mouse(&down(3, 4)), None);
    assert_eq!(m.buttons.len(), 6);
    assert_eq!(m.buttons[0].0, Rect { x: 0, y: 10, width: 13, height: 1 });
    assert_eq!(m.buttons[1].0, Rect { x: 14, y: 10, width: 14, height: 1 });
    m.on_mouse(&down(15, 10));
    assert!(matches!(m.mode, Mode::Form(_)));
}

#[test]
fn dar_arac_cubugu_sigmayan_dugmeyi_atlar() {
    let mut m = yonetici(ornek_sunucular());
    m.set_toolbar(Rect { x: 0, y: 0, width: 30, height: 1 });
    assert_eq!(m.buttons.len(), 2);
    assert_eq!(m.buttons[1].1, Action::Edit);
    m.set_toolbar(Rect { x: 0, y: 0, width: 30, height: 0 });
    assert!(m.buttons.is_empty());
}

#[test]
fn form_yerlesimi_ve_tiklamayla_odak() {
    let mut f = Form::new(Some(0), &ornek_sunucular()[0]);
    f.layout(Rect { x: 10, y: 5, width: 40, height: 12 });
    assert_eq!(f.field_areas[0], Rect { x: 28, y: 5, width: 22, height: 1 });
    assert_eq!(f.field_areas[6], Rect { x: 28, y: 11, width: 22, height: 1 });
    assert_eq!(f.save_area, Rect { x: 11, y: 15, width: 16, height: 1 });
    assert_eq!(f.cancel_area, Rect { x: 29, y: 15, width: 14, height: 1 });
    assert_eq!(f.reveal_area, Rect::default(), "sığmayan düğme çizilmez");
    assert_eq!(f.cursor_at, Some((39, 5)));
    let mut m = yonetici(ornek_sunucular());
    m.mode = Mode::Form(Box::new(f));
    m.on_mouse(&MouseEvent { kind: MouseKind::Down(MouseButton::Left), column: 30, row: 8 });
    match &m.mode {
        Mode::Form(f) => {
            assert_eq!(f.cur, 3);
            assert_eq!(f.cursor, 2);
        }
        _ => panic!("form açık olmalı"),
    }
    m.on_mouse(&MouseEvent { kind: MouseKind::Down(MouseButton::Left), column: 30, row: 15 });
    assert!(matches!(m.mode, Mode::List), "Vazgeç düğmesi formu kapatır");
}

#[test]
fn gizli_alan_maskelenir_ve_kaydirilir() {
    let mut f = form_ile(["uzun bir sunucu adi", "h", "22", "u", "abc", "", ""]);
    assert_eq!(f.shown_text(F_PASS, 10), "•••");
    f.show_secrets = true;
    assert_eq!(f.shown_text(F_PASS, 10), "abc");
    f.cursor = 19;
    f.layout(Rect { x: 0, y: 0, width: 30, height: 12 });
    assert_eq!(f.scroll, 5);
    assert_eq!(f.shown_text(F_NAME, 15), "bir sunucu adi");
    assert_eq!(f.shown_text(F_KEY, 15), "");
}

#[test]
fn yardimci_metin_islemleri() {
    assert_eq!(kirp("kısa", 10), "kısa");
    assert_eq!(kirp("uzunca bir ad", 6), "uzunc…");
    assert_eq!(kirp("abc", 0), "…");
    assert_eq!(bayt("İstanbul", 1), 2);
    assert_eq!(bayt("İstanbul", 100), "İstanbul".len());
    assert_eq!(parse_u16("+80"), Some(80));
    assert_eq!(parse_u16("65535"), Some(65535));
    assert_eq!(parse_u16("65536"), None);
    assert_eq!(parse_u16("+"), None);
    assert_eq!(parse_u16(""), None);
    assert_eq!(parse_u16("8a"), None);
    assert_eq!(button_text(Action::MoveDown), " ↓ (Alt+↓) ");
    assert_eq!(
        ortala(Rect { x: 0, y: 0, width: 80, height: 24 }, 68, 13),
        Rect { x: 6, y: 5, width: 68, height: 13 }
    );
    assert_eq!(
        ortala(Rect { x: 2, y: 1, width: 10, height: 3 }, 68, 13),
        Rect { x: 2, y: 1, width: 10, height: 3 }
    );
}

#[test]
fn durum_satiri_ve_ad_sutunu() {
    let mut m = yonetici(ornek_sunucular());
    m.status = "hazır".into();
    assert_eq!(m.status_line(), " hazır ");
    m.query = "o".into();
    m.refilter();
    assert_eq!(m.status_line(), " ara: o   (2 eşleşme) ");
    m.list_area = Rect { x: 0, y: 0, width: 10, height: 1 };
    assert_eq!(m.name_width(), 8);
    m.list_area = Rect { x: 0, y: 0, width: 60, height: 1 };
    assert_eq!(m.name_width(), 11);
    m.offset = 1;
    assert_eq!(m.shown_rows(), vec![1]);
}
