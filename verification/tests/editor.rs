use tfs::editor::{
    after_edit, centered, edit_size_check, fnv1a_update, install_plan, is_own_temp_dir,
    safe_file_name, AfterEdit, FNV_OFFSET, MAX_EDIT_BYTES,
};
use tfs::geometry::Rect;

#[test]
fn temp_dosya_adi_yol_icermez() {
    assert_eq!(safe_file_name("../../etc/passwd"), "passwd");
    assert_eq!(safe_file_name("a\\b\\c.txt"), "c.txt");
}

#[test]
fn temp_dosya_bos_isimde_de_gecerli() {
    assert_eq!(safe_file_name(""), "dosya");
    assert_eq!(safe_file_name(".."), "dosya");
    assert_eq!(safe_file_name("dir/"), "dosya");
}

#[test]
fn cleanup_yabanci_dizine_dokunmaz() {
    assert!(!is_own_temp_dir("tfs-test-yabanci"), "tfs-edit- ile başlamayan dizin silinmemeli");
    assert!(is_own_temp_dir("tfs-edit-123-4"));
}

#[test]
fn hash_icerik_degisince_degisir() {
    let a = fnv1a_update(FNV_OFFSET, b"merhaba");
    assert_eq!(a, fnv1a_update(FNV_OFFSET, b"merhaba"), "aynı içerik → aynı özet");
    assert_ne!(a, fnv1a_update(FNV_OFFSET, b"merhabb"));
}

#[test]
fn ozet_parca_parca_okununca_ayni() {
    let bir = fnv1a_update(FNV_OFFSET, b"merhaba dunya");
    let iki = fnv1a_update(fnv1a_update(FNV_OFFSET, b"merhaba"), b" dunya");
    assert_eq!(bir, iki);
    assert_eq!(fnv1a_update(FNV_OFFSET, b""), 0xcbf2_9ce4_8422_2325);
    assert_eq!(fnv1a_update(FNV_OFFSET, b"a"), 0xaf63_dc4c_8601_ec8c);
}

#[test]
fn kurulum_plani_araclara_gore() {
    assert_eq!(install_plan(true, true), ["cargo binstall --no-confirm fresh-editor"]);
    assert_eq!(
        install_plan(false, true),
        [
            "cargo install cargo-binstall",
            "cargo binstall --no-confirm fresh-editor",
            "(gerekirse) cargo install --locked fresh-editor",
        ]
    );
    assert!(install_plan(false, false).is_empty());
}

#[test]
fn buyuk_dosya_duzenlenmez() {
    assert!(edit_size_check("a.log", MAX_EDIT_BYTES).is_none());
    assert_eq!(
        edit_size_check("a.log", 200 * 1024 * 1024).as_deref(),
        Some("a.log çok büyük (200 MiB) — düzenleme için sınır 64 MiB.")
    );
}

#[test]
fn duzenleme_sonrasi_karar() {
    assert_eq!(after_edit(Some(1), None), AfterEdit::Unreadable);
    assert_eq!(after_edit(Some(1), Some(1)), AfterEdit::Unchanged);
    assert_eq!(after_edit(Some(1), Some(2)), AfterEdit::Upload);
    assert_eq!(after_edit(None, Some(2)), AfterEdit::Upload);
}

#[test]
fn kurulum_kutusu_ortalanir() {
    let r = centered(Rect { x: 0, y: 0, width: 100, height: 30 }, 70, 10);
    assert_eq!(r, Rect { x: 15, y: 10, width: 70, height: 10 });
    let r = centered(Rect { x: 0, y: 0, width: 24, height: 5 }, 50, 10);
    assert_eq!(r, Rect { x: 2, y: 0, width: 20, height: 5 });
}
