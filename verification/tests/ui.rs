use tfs::geometry::Rect;
use tfs::ui::{centered_rect, drag_label, ghost_area, transfer_title};

#[test]
fn ilerleme_kutusu_ortalanir() {
    assert_eq!(
        centered_rect(Rect { x: 0, y: 0, width: 100, height: 30 }, 60, 3),
        Rect { x: 20, y: 13, width: 60, height: 3 }
    );
    assert_eq!(
        centered_rect(Rect { x: 0, y: 0, width: 10, height: 2 }, 60, 3),
        Rect { x: 2, y: 0, width: 6, height: 2 }
    );
}

#[test]
fn surukleme_etiketi_ekranda_kalir() {
    let l = drag_label("a.txt");
    assert_eq!(l, " ⇢ a.txt ");
    assert_eq!(ghost_area(80, 24, 5, 5, &l), Rect { x: 5, y: 5, width: 9, height: 1 });
    assert_eq!(ghost_area(80, 24, 79, 30, &l), Rect { x: 71, y: 23, width: 9, height: 1 });
    assert_eq!(ghost_area(5, 24, 3, 0, &l), Rect { x: 1, y: 0, width: 4, height: 1 });
}

#[test]
fn ilerleme_basligi_dosya_sayar() {
    assert_eq!(transfer_title(Some((37, 412))), " Transfer — 37/412 dosya — q/Esc: iptal ");
    assert_eq!(transfer_title(None), " Transfer — q/Esc: iptal ");
}
