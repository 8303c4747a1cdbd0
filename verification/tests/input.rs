use tfs::input::{
    burst_char, burst_step, is_paste_key, term_area, BurstStep, Event, KeyCode, KeyEvent, KeyKind,
    Modifiers, BURST_MAX_BYTES,
};

fn ev(code: KeyCode, ctrl: bool, kind: KeyKind) -> Event {
    Event::Key(KeyEvent { code, modifiers: Modifiers { shift: false, ctrl, alt: false }, kind })
}

/// Collects a burst from already pending events, as the main loop does.
fn collect(events: &[Event]) -> (String, usize) {
    let mut text = String::new();
    let mut i = 0;
    while text.len() < BURST_MAX_BYTES {
        match burst_step(events.get(i)) {
            BurstStep::Take(c) => {
                text.push(c);
                i += 1;
            }
            BurstStep::Skip => i += 1,
            BurstStep::Stop => break,
        }
    }
    (text, i)
}

#[test]
fn yigin_ardisik_karakterleri_toplar() {
    let e = [
        ev(KeyCode::Char('e'), false, KeyKind::Press),
        ev(KeyCode::Char('l'), false, KeyKind::Press),
        ev(KeyCode::Enter, false, KeyKind::Press),
        ev(KeyCode::Tab, false, KeyKind::Press),
    ];
    assert_eq!(collect(&e), ("el\r\t".to_string(), 4));
    assert_eq!(collect(&[]), (String::new(), 0));
}

#[test]
fn yigin_birakmayi_yutar_ctrl_ve_ok_tusunda_durur() {
    let e = [
        ev(KeyCode::Char('a'), false, KeyKind::Press),
        ev(KeyCode::Char('a'), false, KeyKind::Release),
        ev(KeyCode::Char('b'), false, KeyKind::Press),
        ev(KeyCode::Char('c'), true, KeyKind::Press),
        ev(KeyCode::Char('d'), false, KeyKind::Press),
    ];
    assert_eq!(collect(&e), ("ab".to_string(), 3));
    let e = [ev(KeyCode::Up, false, KeyKind::Press)];
    assert_eq!(collect(&e), (String::new(), 0));
    let e = [Event::Resize(80, 24)];
    assert_eq!(collect(&e), (String::new(), 0));
}

#[test]
fn yapistirma_kisayollari() {
    let k = |code, shift, ctrl| KeyEvent { code, modifiers: Modifiers { shift, ctrl, alt: false }, kind: KeyKind::Press };
    assert!(is_paste_key(&k(KeyCode::Insert, true, false)));
    assert!(!is_paste_key(&k(KeyCode::Insert, true, true)));
    assert!(is_paste_key(&k(KeyCode::Char('V'), true, true)));
    assert!(!is_paste_key(&k(KeyCode::Char('v'), false, true)), "Ctrl+V kabuğa gider");
    assert_eq!(burst_char(&k(KeyCode::Enter, false, false)), Some('\r'));
    assert_eq!(burst_char(&k(KeyCode::Char('x'), false, true)), None);
}

#[test]
fn terminal_alani_ust_cubugu_dusurur() {
    assert_eq!(term_area(80, 24), (23, 80));
    assert_eq!(term_area(0, 1), (1, 1));
}
