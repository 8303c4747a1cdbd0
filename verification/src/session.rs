//! The decisions of the main loop: which screen an input event goes to and
//! what it asks for, the state of a running transfer, the answers of the
//! yes/no prompts and the status texts of the edit flow. The loop itself
//! (drawing, waiting for events, talking to the server) is the caller's.

use vstd::prelude::*;

use crate::app::{App, LoadRequest, PanelId, TransferRequest, TransferState};
use crate::input::{
    burst_char_spec, is_paste_key, is_paste_key_spec, burst_char, Event, KeyCode, KeyEvent, KeyKind,
    MouseButton, MouseEvent, MouseKind,
};
use crate::ssh::{summary_text, TransferProgress, TreeOutcome};
use crate::terminal::{hit_tab, tab_at, Tab, SCROLL_STEP};
use crate::text::{concat2, concat3};

verus! {

broadcast use vstd::string::group_string_axioms;

/// The screen on show: F1 the terminal, F2 the file transfer.
#[derive(Clone, Copy, PartialEq, Eq, Debug, Structural)]
pub enum ScreenKind {
    FileTransfer,
    Terminal,
}

/// What the main loop must do for an input event.
#[derive(Clone, Copy, PartialEq, Eq, Debug, Structural)]
pub enum Step {
    /// Nothing.
    Nothing,
    /// Open the shell (its screen is shown, none is open yet).
    OpenShell,
    /// Hand the event to the file screen.
    Files,
    /// Paste the clipboard into the shell.
    PasteClipboard,
    /// Scroll the terminal this many lines back.
    ScrollUp(usize),
    /// Scroll the terminal this many lines forward.
    ScrollDown(usize),
    /// Send a typeable key, then collect the keys that follow it at once.
    StartBurst,
    /// Send the key.
    SendKey,
    /// Send the event's pasted text.
    SendPaste,
    /// Start a selection at (row, column) of the terminal grid.
    SelStart(u16, u16),
    /// Drag the selection to (row, column).
    SelUpdate(u16, u16),
    /// End the selection and copy it.
    SelFinish,
}

/// The terminal screen; the shell is opened first when none is open.
pub open spec fn to_terminal(shell_open: bool) -> (ScreenKind, Step) {
    (ScreenKind::Terminal, if shell_open {
        Step::Nothing
    } else {
        Step::OpenShell
    })
}

/// How the main loop handles an input event. F1 and F2 (and a click on the
/// top bar's tabs) switch screens on either screen and never reach the
/// shell. The file screen gets every other event but a resize. On the
/// terminal screen, with a shell open: Shift+Insert / Ctrl+Shift+V and the
/// right button paste the clipboard, Shift+PgUp/PgDn scroll by `page`
/// lines and the wheel by `SCROLL_STEP`, a typeable key starts a burst,
/// other keys are sent, a bracketed paste is sent, and the left button
/// selects (the grid starts below the top bar).
pub open spec fn dispatch_spec(screen: ScreenKind, shell_open: bool, ev: Event, page: u16) -> (
    ScreenKind,
    Step,
) {
    match ev {
        Event::Key(k) if k.kind == KeyKind::Press && k.code == KeyCode::F(1) => to_terminal(
            shell_open,
        ),
        Event::Key(k) if k.kind == KeyKind::Press && k.code == KeyCode::F(2) => (
            ScreenKind::FileTransfer,
            Step::Nothing,
        ),
        Event::Mouse(m) if m.kind == MouseKind::Down(MouseButton::Left) && tab_at(
            m.column as int,
            m.row as int,
        ) is Some => if tab_at(m.column as int, m.row as int) == Some(Tab::Terminal) {
            to_terminal(shell_open)
        } else {
            (ScreenKind::FileTransfer, Step::Nothing)
        },
        _ => match screen {
            ScreenKind::FileTransfer => (screen, if ev is Resize {
                Step::Nothing
            } else {
                Step::Files
            }),
            ScreenKind::Terminal => (screen, if !shell_open {
                Step::Nothing
            } else {
                match ev {
                    Event::Key(k) if k.kind == KeyKind::Press => if is_paste_key_spec(k) {
                        Step::PasteClipboard
                    } else if k.modifiers.shift && k.code == KeyCode::PageUp {
                        Step::ScrollUp(page as usize)
                    } else if k.modifiers.shift && k.code == KeyCode::PageDown {
                        Step::ScrollDown(page as usize)
                    } else if burst_char_spec(k) is Some {
                        Step::StartBurst
                    } else {
                        Step::SendKey
                    },
                    Event::Paste(_) => Step::SendPaste,
                    Event::Mouse(m) => match m.kind {
                        MouseKind::Down(MouseButton::Left) if m.row >= 1 => Step::SelStart(
                            (m.row - 1) as u16,
                            m.column,
                        ),
                        MouseKind::Drag(MouseButton::Left) if m.row >= 1 => Step::SelUpdate(
                            (m.row - 1) as u16,
                            m.column,
                        ),
                        MouseKind::Up(MouseButton::Left) => Step::SelFinish,
                        MouseKind::Down(MouseButton::Right) => Step::PasteClipboard,
                        MouseKind::ScrollUp => Step::ScrollUp(SCROLL_STEP),
                        MouseKind::ScrollDown => Step::ScrollDown(SCROLL_STEP),
                        _ => Step::Nothing,
                    },
                    _ => Step::Nothing,
                }
            }),
        },
    }
}

/// Decides what an input event does (see `dispatch_spec`); `page` is the
/// terminal's height in rows.
pub fn dispatch(screen: ScreenKind, shell_open: bool, ev: &Event, page: u16) -> (r: (ScreenKind, Step))
    ensures
        r == dispatch_spec(screen, shell_open, *ev, page),
{
    let to_term = (ScreenKind::Terminal, if shell_open {
        Step::Nothing
    } else {
        Step::OpenShell
    });
    match ev {
        Event::Key(k) => {
            if k.kind == KeyKind::Press {
                match k.code {
                    KeyCode::F(1) => {
                        return to_term;
                    },
                    KeyCode::F(2) => {
                        return (ScreenKind::FileTransfer, Step::Nothing);
                    },
                    _ => {},
                }
            }
        },
        Event::Mouse(m) => {
            if m.kind == MouseKind::Down(MouseButton::Left) {
                match hit_tab(m.column, m.row) {
                    Some(Tab::Terminal) => {
                        return to_term;
                    },
                    Some(Tab::Files) => {
                        return (ScreenKind::FileTransfer, Step::Nothing);
                    },
                    None => {},
                }
            }
        },
        _ => {},
    }
    match screen {
        ScreenKind::FileTransfer => {
            let step = match ev {
                Event::Resize(_, _) => Step::Nothing,
                _ => Step::Files,
            };
            (screen, step)
        },
        ScreenKind::Terminal => {
            if !shell_open {
                return (screen, Step::Nothing);
            }
            let step = match ev {
                Event::Key(k) => {
                    if k.kind != KeyKind::Press {
                        Step::Nothing
                    } else if is_paste_key(k) {
                        Step::PasteClipboard
                    } else if k.modifiers.shift && k.code == KeyCode::PageUp {
                        Step::ScrollUp(page as usize)
                    } else if k.modifiers.shift && k.code == KeyCode::PageDown {
                        Step::ScrollDown(page as usize)
                    } else if burst_char(k).is_some() {
                        Step::StartBurst
                    } else {
                        Step::SendKey
                    }
                },
                Event::Paste(_) => Step::SendPaste,
                Event::Mouse(m) => match m.kind {
                    MouseKind::Down(MouseButton::Left) => {
                        if m.row >= 1 {
                            Step::SelStart(m.row - 1, m.column)
                        } else {
                            Step::Nothing
                        }
                    },
                    MouseKind::Drag(MouseButton::Left) => {
                        if m.row >= 1 {
                            Step::SelUpdate(m.row - 1, m.column)
                        } else {
                            Step::Nothing
                        }
                    },
                    MouseKind::Up(MouseButton::Left) => Step::SelFinish,
                    MouseKind::Down(MouseButton::Right) => Step::PasteClipboard,
                    MouseKind::ScrollUp => Step::ScrollUp(SCROLL_STEP),
                    MouseKind::ScrollDown => Step::ScrollDown(SCROLL_STEP),
                    _ => Step::Nothing,
                },
                _ => Step::Nothing,
            };
            (screen, step)
        },
    }
}

/// The status text when the shell could not be opened.
pub fn shell_failed_status(error: &str) -> (r: String)
    ensures
        r@ == "Kabuk açılamadı: "@ + error@,
{
    concat2("Kabuk açılamadı: ", error)
}

/// The status text when the shell has ended.
pub fn shell_closed_status() -> (r: String)
    ensures
        r@ == "Kabuk oturumu kapandı."@,
{
    String::from_str("Kabuk oturumu kapandı.")
}

} // verus!

verus! {

/// What a transfer is doing, by its direction: towards the server it
/// uploads, towards this machine it downloads.
pub open spec fn transfer_verb(target: PanelId) -> Seq<char> {
    match target {
        PanelId::Remote => "Yükleniyor"@,
        PanelId::Local => "İndiriliyor"@,
    }
}

/// The status after a transfer ran to its end: its name, the summary of
/// what was copied, skipped and failed, and the first error if any.
pub open spec fn done_status_text(name: Seq<char>, o: TreeOutcome) -> Seq<char> {
    "Tamamlandı: "@ + name + " — "@ + summary_text(o) + match o.first_error {
        Some(e) => " · ilk hata: "@ + e@,
        None => Seq::empty(),
    }
}

/// How a transfer ended.
pub enum TransferEnd {
    /// The copy ran to its end; what was copied, skipped and failed.
    Done(TreeOutcome),
    /// The copy failed with this error.
    Failed(String),
    /// The user cancelled it.
    Cancelled,
    /// The task running it failed with this error.
    Crashed(String),
}

/// The key that cancels a running transfer: `q` or Esc.
pub open spec fn cancels_transfer(k: KeyEvent) -> bool {
    k.kind == KeyKind::Press && (k.code == KeyCode::Char('q') || k.code == KeyCode::Esc)
}

/// Whether the key cancels the running transfer.
pub fn is_cancel_key(k: &KeyEvent) -> (b: bool)
    ensures
        b == cancels_transfer(*k),
{
    k.kind == KeyKind::Press && (k.code == KeyCode::Char('q') || k.code == KeyCode::Esc)
}

impl App {
    /// A transfer starts: the status names it and how to cancel it, and the
    /// progress bar starts empty.
    pub fn begin_transfer(&mut self, req: &TransferRequest)
        ensures
            final(self).status@ == transfer_verb(req.target) + ": "@ + req.name@ + " (q/Esc: iptal)"@,
            (final(self).transfer matches Some(t) && t.name@ == req.name@ && t.done == 0 && t.total
                == 0 && t.label is None && t.files is None),
            *final(self) == (App { status: final(self).status, transfer: final(self).transfer, ..*old(self) }),
    {
        let verb = match req.target {
            PanelId::Remote => "Yükleniyor",
            PanelId::Local => "İndiriliyor",
        };
        let mut s = concat3(verb, ": ", req.name.as_str());
        s.append(" (q/Esc: iptal)");
        self.status = s;
        self.transfer = Some(
            TransferState { name: req.name.clone(), done: 0, total: 0, label: None, files: None },
        );
    }

    /// A progress report of the running transfer updates the progress bar.
    pub fn transfer_progress(&mut self, p: &TransferProgress)
        ensures
            match old(self).transfer {
                None => *final(self) == *old(self),
                Some(t) => (final(self).transfer matches Some(u) && u.name == t.name && u.done == p.done
                    && u.total == p.total && crate::config::opt_view(u.label) == crate::config::opt_view(p.label)
                    && u.files == p.files) && *final(self) == (App { transfer: final(self).transfer, ..*old(self) }),
            },
    {
        let mut cur: Option<TransferState> = None;
        std::mem::swap(&mut cur, &mut self.transfer);
        match cur {
            Some(t) => {
                let label = match &p.label {
                    Some(l) => Some(l.clone()),
                    None => None,
                };
                self.transfer = Some(TransferState { name: t.name, done: p.done, total: p.total, label, files: p.files });
            },
            None => {},
        }
    }

    /// The user cancelled the transfer.
    pub fn cancel_transfer(&mut self, req: &TransferRequest)
        ensures
            final(self).status@ == "Transfer iptal edildi: "@ + req.name@,
            final(self).transfer is None,
            *final(self) == (App { status: final(self).status, transfer: None, ..*old(self) }),
    {
        self.transfer = None;
        self.status = concat2("Transfer iptal edildi: ", req.name.as_str());
    }

    /// The transfer ended. The progress bar goes away and the status tells
    /// how it ended (a cancel was already reported). After a success the
    /// target panel must be reloaded: its directory is returned.
    pub fn finish_transfer(&mut self, req: &TransferRequest, end: &TransferEnd) -> (r: Option<LoadRequest>)
        ensures
            final(self).transfer is None,
            match end {
                TransferEnd::Done(o) => {
                    &&& final(self).status@ == done_status_text(req.name@, *o)
                    &&& (r matches Some(l) && l.panel == req.target && l.dir == old(self).panel(req.target).cwd)
                },
                TransferEnd::Failed(e) => final(self).status@ == "Transfer hatası: "@ + e@ && r is None,
                TransferEnd::Cancelled => final(self).status == old(self).status && r is None,
                TransferEnd::Crashed(e) => final(self).status@ == "Transfer görevi hatası: "@ + e@ && r is None,
            },
            *final(self) == (App { status: final(self).status, transfer: None, ..*old(self) }),
    {
        self.transfer = None;
        match end {
            TransferEnd::Done(o) => {
                let mut st = concat3("Tamamlandı: ", req.name.as_str(), " — ");
                let summary = o.summary();
                st.append(summary.as_str());
                match &o.first_error {
                    Some(e) => {
                        st.append(" · ilk hata: ");
                        st.append(e.as_str());
                    },
                    None => {},
                }
                assert(st@ =~= done_status_text(req.name@, *o));
                self.status = st;
                let dir = match req.target {
                    PanelId::Remote => self.remote.cwd.clone(),
                    PanelId::Local => self.local.cwd.clone(),
                };
                Some(LoadRequest { panel: req.target, dir })
            },
            TransferEnd::Failed(e) => {
                self.status = concat2("Transfer hatası: ", e.as_str());
                None
            },
            TransferEnd::Cancelled => None,
            TransferEnd::Crashed(e) => {
                self.status = concat2("Transfer görevi hatası: ", e.as_str());
                None
            },
        }
    }
}

/// The answer a key gives to a yes/no box: `e`, `E` or Enter accept when
/// accepting is possible; `h`, `H`, `q`, Enter or Esc refuse; other keys
/// give no answer yet.
pub open spec fn answer_of(k: KeyEvent, can_accept: bool) -> Option<bool> {
    if k.kind != KeyKind::Press {
        None
    } else if can_accept && (k.code == KeyCode::Char('e') || k.code == KeyCode::Char('E')
        || k.code == KeyCode::Enter) {
        Some(true)
    } else if k.code == KeyCode::Char('h') || k.code == KeyCode::Char('H') || k.code
        == KeyCode::Char('q') || k.code == KeyCode::Enter || k.code == KeyCode::Esc {
        Some(false)
    } else {
        None
    }
}

/// The answer a key gives to a yes/no box (install the editor, trust a new
/// host key).
pub fn confirm_answer(k: &KeyEvent, can_accept: bool) -> (r: Option<bool>)
    ensures
        r == answer_of(*k, can_accept),
{
    if k.kind != KeyKind::Press {
        return None;
    }
    let c = k.code;
    if can_accept && (c == KeyCode::Char('e') || c == KeyCode::Char('E') || c == KeyCode::Enter) {
        Some(true)
    } else if c == KeyCode::Char('h') || c == KeyCode::Char('H') || c == KeyCode::Char('q') || c
        == KeyCode::Enter || c == KeyCode::Esc {
        Some(false)
    } else {
        None
    }
}

/// An outcome of the edit flow shown in the status line.
pub enum EditNote {
    /// The editor is missing and the user declined to install it.
    Declined,
    /// The editor was installed.
    Installed,
    /// Installing failed, for this reason.
    InstallFailed(String),
    /// The editor failed with this error.
    EditorError(String),
    /// The local file was edited.
    Edited(String),
    /// No temporary file could be made.
    TempFailed(String),
    /// The edited copy of this remote file could not be read back.
    Unreadable(String),
    /// This remote file was not changed.
    Unchanged(String),
    /// This remote file was saved and uploaded.
    Saved(String),
    /// Uploading failed; the changes are kept at this local path.
    UploadFailed(String),
}

/// The status text of an edit-flow outcome.
pub open spec fn edit_note_text(n: EditNote) -> Seq<char> {
    match n {
        EditNote::Declined => "Düzenleme iptal — "@ + crate::editor::CRATE@ + " kurulu değil."@,
        EditNote::Installed => crate::editor::CRATE@ + " kuruldu."@,
        EditNote::InstallFailed(w) => "Kurulum başarısız: "@ + w@,
        EditNote::EditorError(e) => "Editör hatası: "@ + e@,
        EditNote::Edited(name) => "Düzenlendi: "@ + name@,
        EditNote::TempFailed(e) => "Geçici dosya açılamadı: "@ + e@,
        EditNote::Unreadable(name) => name@ + " okunamadı — yükleme yapılmadı."@,
        EditNote::Unchanged(name) => name@ + " değişmedi — yükleme yapılmadı."@,
        EditNote::Saved(name) => "✓ "@ + name@ + " kaydedildi ve sunucuya yüklendi."@,
        EditNote::UploadFailed(p) => "Yükleme başarısız — değişiklikleriniz burada: "@ + p@,
    }
}

/// The status text of an edit-flow outcome.
pub fn edit_note(n: &EditNote) -> (r: String)
    ensures
        r@ == edit_note_text(*n),
{
    match n {
        EditNote::Declined => concat3("Düzenleme iptal — ", crate::editor::CRATE, " kurulu değil."),
        EditNote::Installed => concat2(crate::editor::CRATE, " kuruldu."),
        EditNote::InstallFailed(w) => concat2("Kurulum başarısız: ", w.as_str()),
        EditNote::EditorError(e) => concat2("Editör hatası: ", e.as_str()),
        EditNote::Edited(name) => concat2("Düzenlendi: ", name.as_str()),
        EditNote::TempFailed(e) => concat2("Geçici dosya açılamadı: ", e.as_str()),
        EditNote::Unreadable(name) => concat2(name.as_str(), " okunamadı — yükleme yapılmadı."),
        EditNote::Unchanged(name) => concat2(name.as_str(), " değişmedi — yükleme yapılmadı."),
        EditNote::Saved(name) => concat3("✓ ", name.as_str(), " kaydedildi ve sunucuya yüklendi."),
        EditNote::UploadFailed(p) => concat2("Yükleme başarısız — değişiklikleriniz burada: ", p.as_str()),
    }
}

/// The note after the editor closed on an unchanged or unreadable copy of
/// a remote file: unreadable, then the editor's own error if it failed,
/// else "not changed". `None` when the copy changed and must be uploaded.
pub open spec fn after_edit_note(
    name: Seq<char>,
    editor_error: Option<Seq<char>>,
    verdict: crate::editor::AfterEdit,
) -> Option<Seq<char>> {
    match verdict {
        crate::editor::AfterEdit::Unreadable => Some(name + " okunamadı — yükleme yapılmadı."@),
        crate::editor::AfterEdit::Unchanged => match editor_error {
            Some(e) => Some("Editör hatası: "@ + e),
            None => Some(name + " değişmedi — yükleme yapılmadı."@),
        },
        crate::editor::AfterEdit::Upload => None,
    }
}

/// The status after editing a remote copy, when nothing is uploaded.
pub fn after_edit_status(
    name: &str,
    editor_error: Option<&str>,
    verdict: crate::editor::AfterEdit,
) -> (r: Option<String>)
    ensures
        crate::config::opt_view(r) == after_edit_note(
            name@,
            match editor_error {
                Some(e) => Some(e@),
                None => None,
            },
            verdict,
        ),
{
    match verdict {
        crate::editor::AfterEdit::Unreadable => Some(concat2(name, " okunamadı — yükleme yapılmadı.")),
        crate::editor::AfterEdit::Unchanged => match editor_error {
            Some(e) => Some(concat2("Editör hatası: ", e)),
            None => Some(concat2(name, " değişmedi — yükleme yapılmadı.")),
        },
        crate::editor::AfterEdit::Upload => None,
    }
}

} // verus!

verus! {

/// F1 and F2 switch screens on either screen and are never sent to the
/// shell nor handed to the file screen.
pub proof fn law_mode_keys_never_reach_shell(screen: ScreenKind, shell_open: bool, k: KeyEvent, page: u16)
    requires
        k.kind == KeyKind::Press,
        k.code == KeyCode::F(1) || k.code == KeyCode::F(2),
    ensures
        dispatch_spec(screen, shell_open, Event::Key(k), page).1 == Step::Nothing || dispatch_spec(
            screen,
            shell_open,
            Event::Key(k),
            page,
        ).1 == Step::OpenShell,
        dispatch_spec(screen, shell_open, Event::Key(k), page).0 == if k.code == KeyCode::F(1) {
            ScreenKind::Terminal
        } else {
            ScreenKind::FileTransfer
        },
{
}

/// On the terminal screen with a shell open the wheel scrolls the view in
/// its own direction: down towards the live screen, up back into the
/// history, by `SCROLL_STEP` lines; Shift+PgDn and Shift+PgUp do the same
/// by a page. The two directions never give the same step.
pub proof fn law_wheel_scrolls_its_way(m: MouseEvent, k: KeyEvent, page: u16)
    ensures
        m.kind == MouseKind::ScrollDown ==> dispatch_spec(
            ScreenKind::Terminal,
            true,
            Event::Mouse(m),
            page,
        ) == (ScreenKind::Terminal, Step::ScrollDown(SCROLL_STEP)),
        m.kind == MouseKind::ScrollUp ==> dispatch_spec(
            ScreenKind::Terminal,
            true,
            Event::Mouse(m),
            page,
        ) == (ScreenKind::Terminal, Step::ScrollUp(SCROLL_STEP)),
        k.kind == KeyKind::Press && k.modifiers.shift && !k.modifiers.ctrl && k.code
            == KeyCode::PageDown ==> dispatch_spec(ScreenKind::Terminal, true, Event::Key(k), page)
            == (ScreenKind::Terminal, Step::ScrollDown(page as usize)),
        k.kind == KeyKind::Press && k.modifiers.shift && !k.modifiers.ctrl && k.code
            == KeyCode::PageUp ==> dispatch_spec(ScreenKind::Terminal, true, Event::Key(k), page)
            == (ScreenKind::Terminal, Step::ScrollUp(page as usize)),
        Step::ScrollDown(SCROLL_STEP) != Step::ScrollUp(SCROLL_STEP),
{
}

/// The shell is opened at most once: with a shell open no event asks for
/// another.
pub proof fn law_shell_opened_once(screen: ScreenKind, ev: Event, page: u16)
    ensures
        dispatch_spec(screen, true, ev, page).1 != Step::OpenShell,
{
}

} // verus!

verus! {

impl App {
    /// A directory could not be listed: the status says which side failed
    /// and why; nothing else changes.
    pub fn load_failed(&mut self, panel: PanelId, error: &str)
        ensures
            final(self).status@ == match panel {
                PanelId::Local => "Yerel dizin hatası: "@,
                PanelId::Remote => "Uzak dizin hatası: "@,
            } + error@,
            *final(self) == (App { status: final(self).status, ..*old(self) }),
    {
        self.status = match panel {
            PanelId::Local => concat2("Yerel dizin hatası: ", error),
            PanelId::Remote => concat2("Uzak dizin hatası: ", error),
        };
    }
}

} // verus!
