use tfs::input::{KeyCode, KeyEvent, KeyKind, Modifiers};
use tfs::terminal::{
    encode_key, has_line_end, hit_tab, paste_body, row_highlight, scan_queries, Notice, Tab,
    TermSession,
};

fn key(code: KeyCode, ctrl: bool, alt: bool) -> KeyEvent {
    KeyEvent { code, modifiers: Modifiers { shift: false, ctrl, alt }, kind: KeyKind::Press }
}

#[test]
fn sekmeler_ust_cubukta() {
    assert_eq!(hit_tab(0, 0), Some(Tab::Terminal));
    assert_eq!(hit_tab(12, 0), Some(Tab::Terminal));
    assert_eq!(hit_tab(13, 0), None);
    assert_eq!(hit_tab(14, 0), Some(Tab::Files));
    assert_eq!(hit_tab(23, 0), Some(Tab::Files));
    assert_eq!(hit_tab(24, 0), None);
    assert_eq!(hit_tab(0, 1), None);
}

#[test]
fn tuslar_ansi_baytlarina_kodlanir() {
    assert_eq!(encode_key(&key(KeyCode::Char('c'), true, false)), Some(vec![3]));
    assert_eq!(encode_key(&key(KeyCode::Char('@'), true, false)), Some(vec![0]));
    assert_eq!(encode_key(&key(KeyCode::Char('1'), true, false)), None);
    assert_eq!(encode_key(&key(KeyCode::Char('ş'), false, false)), Some("ş".as_bytes().to_vec()));
    assert_eq!(encode_key(&key(KeyCode::Char('x'), false, true)), Some(vec![0x1b, b'x']));
    assert_eq!(encode_key(&key(KeyCode::Enter, false, false)), Some(vec![b'\r']));
    assert_eq!(encode_key(&key(KeyCode::Up, false, false)), Some(b"\x1b[A".to_vec()));
    assert_eq!(encode_key(&key(KeyCode::PageDown, false, false)), Some(b"\x1b[6~".to_vec()));
    assert_eq!(encode_key(&key(KeyCode::F(3), false, false)), Some(b"\x1bOR".to_vec()));
    assert_eq!(encode_key(&key(KeyCode::F(12), false, false)), Some(b"\x1b[24~".to_vec()));
    assert_eq!(encode_key(&key(KeyCode::F(1), false, false)), None);
    assert_eq!(encode_key(&key(KeyCode::Other, false, false)), None);
}

#[test]
fn terminal_sorgulari_yanitlanir() {
    let mut out = Vec::new();
    scan_queries(b"abc\x1b[6n", (4, 9), &mut out);
    assert_eq!(out, b"\x1b[5;10R");
    let mut out = Vec::new();
    scan_queries(b"\x1b[5n\x1b[c\x1b[0c\x1b[>c\x1b[6", (0, 0), &mut out);
    assert_eq!(out, b"\x1b[0n\x1b[?1;2c\x1b[?1;2c".to_vec());
    let mut out = vec![1u8];
    scan_queries(b"\x1b[1;2H", (0, 0), &mut out);
    assert_eq!(out, vec![1u8]);
}

#[test]
fn yapistirma_satir_sonlari_cr_olur() {
    assert_eq!(paste_body("a\r\nb\nc\rd"), "a\rb\rc\rd");
    assert!(has_line_end("a\nb"));
    assert!(!has_line_end("jjjj"));
}

#[test]
fn oturum_sorgu_yanitini_biriktirir() {
    let mut t = TermSession::new(24, 80);
    assert!(t.take_reply().is_none());
    t.feed(b"merhaba\x1b[6n");
    assert_eq!(t.take_reply(), Some(b"\x1b[1;8R".to_vec()));
    assert!(t.take_reply().is_none());
}

#[test]
fn secim_ve_kopyalama_notu() {
    let mut t = TermSession::new(5, 10);
    t.feed(b"hello world");
    t.sel_start(0, 0);
    assert!(t.sel_finish().is_none(), "tek tık kopyalamaz");
    assert!(t.selection.is_none());
    t.sel_start(0, 0);
    t.sel_update(0, 4);
    assert_eq!(t.selection_span(), Some((0, 0, 0, 5)));
    assert_eq!(t.sel_finish().as_deref(), Some("hello"));
    t.notify(Notice::Copied(5));
    assert_eq!(t.copy_note.as_deref(), Some("✓ 5 karakter kopyalandı"));
    assert_eq!(t.top_note().as_deref(), Some("✓ 5 karakter kopyalandı"));
    t.clear_selection();
    assert!(t.copy_note.is_none());
    t.sel_start(9, 99);
    assert_eq!(t.selection.unwrap().anchor, (4, 9), "seçim ızgaraya kırpılır");
}

#[test]
fn boyut_degisimi_yalniz_gercek_degisiklikte() {
    let mut t = TermSession::new(24, 80);
    assert!(!t.resize(24, 80));
    assert!(!t.resize(0, 80));
    assert!(t.resize(30, 100));
    assert_eq!((t.rows, t.cols), (30, 100));
}

#[test]
fn yazinca_secim_duser_ve_bayt_doner() {
    let mut t = TermSession::new(24, 80);
    t.sel_start(1, 1);
    t.sel_update(1, 3);
    assert_eq!(t.key_bytes(&key(KeyCode::Char('a'), false, false)), Some(vec![b'a']));
    assert!(t.selection.is_none());
    assert_eq!(t.burst("abc"), b"abc".to_vec());
    assert_eq!(t.paste("x\ny"), b"x\ry".to_vec());
    t.feed(b"\x1b[?2004h");
    assert_eq!(t.burst("x\ny"), b"\x1b[200~x\ry\x1b[201~".to_vec());
}

#[test]
fn gecmise_kaydirma_notu() {
    let mut t = TermSession::new(3, 10);
    for _ in 0..10 {
        t.feed(b"satir\r\n");
    }
    t.scroll_up(2);
    assert_eq!(t.scrollback(), 2);
    assert_eq!(
        t.top_note().as_deref(),
        Some("⇡ 2 satır geride (Enter/yazınca canlıya döner)")
    );
    t.scroll_down(5);
    assert_eq!(t.scrollback(), 0);
    assert!(t.top_note().is_none());
}

#[test]
fn secim_vurgusu_satir_araliklari() {
    assert_eq!(row_highlight(1, 2, 1, 5, 1, 80), (2, 5));
    assert_eq!(row_highlight(1, 2, 3, 5, 1, 80), (2, 80));
    assert_eq!(row_highlight(1, 2, 3, 5, 2, 80), (0, 80));
    assert_eq!(row_highlight(1, 2, 3, 5, 3, 80), (0, 5));
    assert_eq!(row_highlight(1, 2, 1, 90, 1, 80), (2, 80));
}

#[test]
fn kaydirma_gecmisle_sinirli_ve_yazinca_canliya_doner() {
    let mut t = TermSession::new(3, 10);
    for _ in 0..10 {
        t.feed(b"satir\r\n");
    }
    t.scroll_up(2);
    let iki = t.scrollback();
    t.scroll_up(usize::MAX);
    let tepe = t.scrollback();
    assert!(tepe >= iki && tepe <= 10, "geçmişin boyuna kırpılır");
    t.scroll_up(1);
    assert_eq!(t.scrollback(), tepe);
    assert_eq!(t.key_bytes(&key(KeyCode::Char('x'), false, false)), Some(vec![b'x']));
    assert_eq!(t.scrollback(), 0);
}

#[test]
fn ekrandan_uzun_geri_kaydirmada_secim_kopyalanmaz() {
    let mut t = TermSession::new(3, 10);
    for _ in 0..10 {
        t.feed(b"satir\r\n");
    }
    t.scroll_up(usize::MAX);
    assert!(t.scrollback() > 3);
    t.sel_start(0, 0);
    t.sel_update(0, 3);
    assert_eq!(t.sel_finish(), None);
    t.scroll_down(usize::MAX);
    t.sel_start(0, 0);
    t.sel_update(0, 3);
    assert_eq!(t.sel_finish().as_deref(), Some("sati"));
}
