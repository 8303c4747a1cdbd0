use tfs::app::{App, PanelId, TransferRequest};
use tfs::editor::AfterEdit;
use tfs::input::{Event, KeyCode, KeyEvent, KeyKind, Modifiers, MouseButton, MouseEvent, MouseKind};
use tfs::session::{
    after_edit_status, confirm_answer, dispatch, edit_note, is_cancel_key, shell_closed_status,
    shell_failed_status, EditNote, ScreenKind, Step, TransferEnd,
};
use tfs::ssh::{TransferProgress, TreeOutcome};

fn press(code: KeyCode) -> Event {
    Event::Key(KeyEvent {
        code,
        modifiers: Modifiers { shift: false, ctrl: false, alt: false },
        kind: KeyKind::Press,
    })
}

fn mouse(kind: MouseKind, column: u16, row: u16) -> Event {
    Event::Mouse(MouseEvent { kind, column, row })
}

#[test]
fn f1_f2_ekran_degistirir_kabuga_gitmez() {
    assert_eq!(dispatch(ScreenKind::FileTransfer, false, &press(KeyCode::F(1)), 20), (ScreenKind::Terminal, Step::OpenShell));
    assert_eq!(dispatch(ScreenKind::FileTransfer, true, &press(KeyCode::F(1)), 20), (ScreenKind::Terminal, Step::Nothing));
    assert_eq!(dispatch(ScreenKind::Terminal, true, &press(KeyCode::F(2)), 20), (ScreenKind::FileTransfer, Step::Nothing));
    let tab = mouse(MouseKind::Down(MouseButton::Left), 15, 0);
    assert_eq!(dispatch(ScreenKind::Terminal, true, &tab, 20), (ScreenKind::FileTransfer, Step::Nothing));
}

#[test]
fn dosya_ekrani_olaylari_uygulamaya_verir() {
    assert_eq!(dispatch(ScreenKind::FileTransfer, true, &press(KeyCode::Char('a')), 20), (ScreenKind::FileTransfer, Step::Files));
    assert_eq!(dispatch(ScreenKind::FileTransfer, true, &Event::Resize(80, 24), 20), (ScreenKind::FileTransfer, Step::Nothing));
}

#[test]
fn terminal_ekrani_tuslari_ve_fareyi_yorumlar() {
    let t = ScreenKind::Terminal;
    assert_eq!(dispatch(t, true, &press(KeyCode::Char('a')), 20).1, Step::StartBurst);
    assert_eq!(dispatch(t, true, &press(KeyCode::Up), 20).1, Step::SendKey);
    let shift_pgup = Event::Key(KeyEvent {
        code: KeyCode::PageUp,
        modifiers: Modifiers { shift: true, ctrl: false, alt: false },
        kind: KeyKind::Press,
    });
    assert_eq!(dispatch(t, true, &shift_pgup, 20).1, Step::ScrollUp(20));
    let shift_ins = Event::Key(KeyEvent {
        code: KeyCode::Insert,
        modifiers: Modifiers { shift: true, ctrl: false, alt: false },
        kind: KeyKind::Press,
    });
    assert_eq!(dispatch(t, true, &shift_ins, 20).1, Step::PasteClipboard);
    assert_eq!(dispatch(t, true, &Event::Paste("x".into()), 20).1, Step::SendPaste);
    assert_eq!(dispatch(t, true, &mouse(MouseKind::Down(MouseButton::Left), 3, 5), 20).1, Step::SelStart(4, 3));
    assert_eq!(dispatch(t, true, &mouse(MouseKind::Drag(MouseButton::Left), 6, 5), 20).1, Step::SelUpdate(4, 6));
    assert_eq!(dispatch(t, true, &mouse(MouseKind::Up(MouseButton::Left), 6, 5), 20).1, Step::SelFinish);
    assert_eq!(dispatch(t, true, &mouse(MouseKind::Down(MouseButton::Right), 6, 5), 20).1, Step::PasteClipboard);
    assert_eq!(dispatch(t, true, &mouse(MouseKind::ScrollUp, 6, 5), 20).1, Step::ScrollUp(3));
    assert_eq!(dispatch(t, false, &press(KeyCode::Char('a')), 20).1, Step::Nothing);
    let release = Event::Key(KeyEvent {
        code: KeyCode::Char('a'),
        modifiers: Modifiers { shift: false, ctrl: false, alt: false },
        kind: KeyKind::Release,
    });
    assert_eq!(dispatch(t, true, &release, 20).1, Step::Nothing);
}

fn istek() -> TransferRequest {
    TransferRequest {
        source: PanelId::Local,
        target: PanelId::Remote,
        name: "a.txt".into(),
        local_path: "/l/a.txt".into(),
        remote_path: "/r/a.txt".into(),
    }
}

#[test]
fn transfer_durumu_ve_sonu() {
    let mut app = App::new();
    app.remote.cwd = "/r".into();
    let req = istek();
    app.begin_transfer(&req);
    assert_eq!(app.status, "Yükleniyor: a.txt (q/Esc: iptal)");
    app.transfer_progress(&TransferProgress { done: 5, total: 9, label: Some("a.txt".into()), files: None });
    assert_eq!(app.transfer.as_ref().map(|t| (t.done, t.total)), Some((5, 9)));
    let tek = TreeOutcome { files: 1, ..Default::default() };
    assert!(tek.is_clean());
    let load = app.finish_transfer(&req, &TransferEnd::Done(tek)).expect("hedef yenilenmeli");
    assert_eq!(load.panel, PanelId::Remote);
    assert_eq!(load.dir, "/r");
    assert!(app.transfer.is_none());
    assert_eq!(app.status, "Tamamlandı: a.txt — 1 dosya");
    app.begin_transfer(&req);
    let hatali = TreeOutcome {
        files: 412,
        errors: 3,
        first_error: Some("src/a.rs: izin yok".into()),
        ..Default::default()
    };
    assert!(!hatali.is_clean());
    assert!(app.finish_transfer(&req, &TransferEnd::Done(hatali)).is_some());
    assert_eq!(app.status, "Tamamlandı: a.txt — 412 dosya · 3 hata · ilk hata: src/a.rs: izin yok");
    app.begin_transfer(&req);
    assert!(app.finish_transfer(&req, &TransferEnd::Failed("kopma".into())).is_none());
    assert_eq!(app.status, "Transfer hatası: kopma");
    app.begin_transfer(&req);
    app.cancel_transfer(&req);
    assert_eq!(app.status, "Transfer iptal edildi: a.txt");
    app.finish_transfer(&req, &TransferEnd::Cancelled);
    assert_eq!(app.status, "Transfer iptal edildi: a.txt");
}

#[test]
fn iptal_tusu_ve_onay_cevaplari() {
    let k = |code| KeyEvent { code, modifiers: Modifiers { shift: false, ctrl: false, alt: false }, kind: KeyKind::Press };
    assert!(is_cancel_key(&k(KeyCode::Char('q'))));
    assert!(is_cancel_key(&k(KeyCode::Esc)));
    assert!(!is_cancel_key(&k(KeyCode::Char('x'))));
    assert_eq!(confirm_answer(&k(KeyCode::Enter), true), Some(true));
    assert_eq!(confirm_answer(&k(KeyCode::Enter), false), Some(false));
    assert_eq!(confirm_answer(&k(KeyCode::Char('E')), false), None);
    assert_eq!(confirm_answer(&k(KeyCode::Char('h')), true), Some(false));
    assert_eq!(confirm_answer(&k(KeyCode::Char('z')), true), None);
}

#[test]
fn duzenleme_durum_metinleri() {
    assert_eq!(edit_note(&EditNote::Declined), "Düzenleme iptal — fresh-editor kurulu değil.");
    assert_eq!(edit_note(&EditNote::Saved("a.txt".into())), "✓ a.txt kaydedildi ve sunucuya yüklendi.");
    assert_eq!(after_edit_status("a.txt", None, AfterEdit::Unchanged).as_deref(), Some("a.txt değişmedi — yükleme yapılmadı."));
    assert_eq!(after_edit_status("a.txt", Some("çöktü"), AfterEdit::Unchanged).as_deref(), Some("Editör hatası: çöktü"));
    assert_eq!(after_edit_status("a.txt", None, AfterEdit::Unreadable).as_deref(), Some("a.txt okunamadı — yükleme yapılmadı."));
    assert!(after_edit_status("a.txt", None, AfterEdit::Upload).is_none());
    assert_eq!(shell_failed_status("x"), "Kabuk açılamadı: x");
    assert_eq!(shell_closed_status(), "Kabuk oturumu kapandı.");
}
