use tfs::app::{App, Entry, Panel, PanelId};
use tfs::geometry::Rect;
use tfs::input::{Event, KeyCode, KeyEvent, KeyKind, Modifiers, MouseButton, MouseEvent, MouseKind};

fn panel(items: &[(&str, bool)]) -> Panel {
    let mut p = Panel::new();
    p.entries = items
        .iter()
        .map(|(n, d)| Entry {
            name: n.to_string(),
            is_dir: *d,
        })
        .collect();
    p.refilter();
    p
}

fn ornek() -> Panel {
    panel(&[
        ("..", true),
        ("assets", true),
        ("index.html", false),
        ("index.php", false),
        ("INDEX.md", false),
        ("robots.txt", false),
    ])
}

fn gorunen(p: &Panel) -> Vec<String> {
    p.visible().iter().map(|e| e.name.clone()).collect()
}

fn key(code: KeyCode) -> KeyEvent {
    KeyEvent {
        code,
        modifiers: Modifiers { shift: false, ctrl: false, alt: false },
        kind: KeyKind::Press,
    }
}

#[test]
fn bos_sorguda_hepsi_gorunur() {
    let p = ornek();
    assert_eq!(p.view.len(), 6);
    assert_eq!(p.current().unwrap().name, "..");
}

#[test]
fn sorgu_filtreler_ve_buyuk_kucuk_harf_duyarsiz() {
    let mut p = ornek();
    p.query = "index".into();
    p.refilter();
    assert_eq!(gorunen(&p), ["index.html", "index.php", "INDEX.md"]);

    p.query = "INDEX".into();
    p.refilter();
    assert_eq!(gorunen(&p), ["index.html", "index.php", "INDEX.md"]);
}

#[test]
fn ust_dizin_girdisi_de_filtrelenir() {
    let mut p = ornek();
    p.query = "idx".into();
    p.refilter();
    assert!(gorunen(&p).is_empty());
}

#[test]
fn harf_silince_secim_korunur() {
    let mut p = ornek();
    p.query = "index".into();
    p.refilter();
    p.selected = 2;
    assert_eq!(p.current().unwrap().name, "INDEX.md");

    p.query.pop();
    p.refilter();
    assert_eq!(p.current().unwrap().name, "INDEX.md", "seçim aynı dosyada kalmalı");

    p.query.clear();
    p.refilter();
    assert_eq!(p.current().unwrap().name, "INDEX.md");
}

#[test]
fn secim_filtreden_dusunce_gecerli_kalir() {
    let mut p = ornek();
    p.selected = 5;
    p.query = "index".into();
    p.refilter();
    assert_eq!(p.selected, 0);
    assert_eq!(p.current().unwrap().name, "index.html");
}

#[test]
fn eslesme_yoksa_secili_girdi_de_yok() {
    let mut p = ornek();
    p.query = "zzz".into();
    p.refilter();
    assert!(p.view.is_empty());
    assert!(p.current().is_none(), "gizli bir girdi seçili görünmemeli");
}

#[test]
fn fare_isabeti_gorunen_listeye_gore() {
    let mut p = ornek();
    p.list_area = Rect { x: 0, y: 0, width: 20, height: 10 };
    p.query = "index".into();
    p.refilter();
    assert_eq!(p.hit(1, 1), Some(1));
    p.selected = p.hit(1, 1).unwrap();
    assert_eq!(p.current().unwrap().name, "index.php");
    assert_eq!(p.hit(1, 3), None);
}

#[test]
fn ada_gore_secim_filtreyi_gerekirse_temizler() {
    let mut app = App::new();
    app.local = ornek();
    app.local.query = "index".into();
    app.local.refilter();

    app.select_by_name(PanelId::Local, "robots.txt");
    assert!(app.local.query.is_empty(), "sorgu temizlenmeliydi");
    assert_eq!(app.local.current().unwrap().name, "robots.txt");
}

#[test]
fn yazmak_aramaya_gider_esc_once_aramayi_temizler() {
    let mut app = App::new();
    app.local = ornek();
    for c in "php".chars() {
        assert!(app.handle_key(&key(KeyCode::Char(c))).is_none());
    }
    assert_eq!(app.local.query, "php");
    assert_eq!(gorunen(&app.local), ["index.php"]);
    app.handle_key(&key(KeyCode::Esc));
    assert!(app.local.query.is_empty());
    assert!(!app.should_quit);
    app.handle_key(&key(KeyCode::Esc));
    assert!(app.should_quit);
}

#[test]
fn tab_odagi_degistirir_ve_asagi_ok_secer() {
    let mut app = App::new();
    app.local = ornek();
    app.handle_key(&key(KeyCode::Down));
    assert_eq!(app.local.selected, 1);
    app.handle_key(&key(KeyCode::End));
    assert_eq!(app.local.selected, 5);
    app.handle_key(&key(KeyCode::Tab));
    assert_eq!(app.focus, PanelId::Remote);
}

#[test]
fn enter_dizine_girer() {
    let mut app = App::new();
    app.local = ornek();
    app.local.cwd = "/home/u".into();
    app.handle_key(&key(KeyCode::Down));
    let req = app.handle_key(&key(KeyCode::Enter)).expect("dizine girilmeli");
    assert_eq!(req.panel, PanelId::Local);
    assert_eq!(req.dir, std::path::Path::new("/home/u").join("assets").to_string_lossy());
}

#[test]
fn f5_secili_dosyayi_karsiya_kuyruga_alir() {
    let mut app = App::new();
    app.local = ornek();
    app.local.cwd = "/home/u".into();
    app.remote = panel(&[("..", true)]);
    app.remote.cwd = "/srv".into();
    app.local.selected = 5;
    app.handle_key(&key(KeyCode::F(5)));
    let t = app.pending_transfer.as_ref().expect("transfer kuyruğa alınmalı");
    assert_eq!(t.source, PanelId::Local);
    assert_eq!(t.target, PanelId::Remote);
    assert_eq!(t.name, "robots.txt");
    assert_eq!(t.remote_path, "/srv/robots.txt");
}

#[test]
fn fare_tekerlegi_ve_tiklama() {
    let mut app = App::new();
    app.local = ornek();
    app.local.list_area = Rect { x: 1, y: 1, width: 30, height: 10 };
    let ev = Event::Mouse(MouseEvent { kind: MouseKind::ScrollDown, column: 2, row: 2 });
    app.handle_event(&ev);
    assert_eq!(app.local.selected, 1);
    let down = Event::Mouse(MouseEvent { kind: MouseKind::Down(MouseButton::Left), column: 2, row: 4 });
    app.handle_event(&down);
    assert_eq!(app.local.selected, 3);
}

#[test]
fn baslik_arama_sayilarini_gosterir() {
    let mut p = ornek();
    p.cwd = "/var/www".into();
    assert_eq!(p.title("UZAK"), " UZAK: /var/www ");
    assert_eq!(p.hidden_note(), None);
    p.set_query("index".into());
    assert_eq!(p.title("UZAK"), " UZAK: /var/www — ara: index (3/6) ");
    assert_eq!(p.hidden_note(), Some("(3 girdi gizlendi)".to_string()));
}

#[test]
fn yerel_ust_dizin_ve_alt_dizin_yolu() {
    let mut app = App::new();
    app.local = ornek();
    app.local.cwd = "/home/okan/proje".into();
    let up = app.parent_of(PanelId::Local);
    assert_eq!(up.panel, PanelId::Local);
    assert_eq!(up.dir, "/home/okan");
    // `assets` is the second visible entry, after `..`.
    let down = app.enter(PanelId::Local, 1).expect("klasöre girilmeli");
    assert_eq!(down.dir, "/home/okan/proje/assets");
    let up_again = app.enter(PanelId::Local, 0).expect("`..` üst dizine çıkar");
    assert_eq!(up_again.dir, "/home/okan");
    app.local.cwd = "/".into();
    assert_eq!(app.parent_of(PanelId::Local).dir, "/");
}

#[test]
fn dizin_yuklenince_secim_basa_doner() {
    let mut app = App::new();
    app.local = ornek();
    app.local.set_query("index".into());
    app.local.select_at(2);
    app.load_local(
        "/tmp/yeni".into(),
        vec![
            Entry { name: "b.txt".into(), is_dir: false },
            Entry { name: "index.html".into(), is_dir: false },
        ],
    );
    assert_eq!(app.local.selected, 0);
    assert_eq!(app.local.offset, 0);
    assert!(app.local.query.is_empty());
    assert_eq!(app.local.cwd, "/tmp/yeni");
}
