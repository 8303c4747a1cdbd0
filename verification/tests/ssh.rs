use tfs::ssh::{
    join_rel, local_child, remote_child, remote_join, remote_parent, Kind, Reporter, Tree,
    TreeOutcome, Walker,
};

/// Plans a tree the way a listing of the given directories would report it:
/// `dirs` maps a directory (relative path) to its entries.
fn plan(dirs: &[(&str, &[(&str, Kind, u64)])]) -> Tree {
    let mut w = Walker::start(Kind::Dir, 0);
    while let Some(d) = w.next_dir() {
        let entries = dirs
            .iter()
            .find(|(name, _)| *name == d.as_str())
            .map(|(_, e)| *e)
            .unwrap_or(&[]);
        for (name, kind, size) in entries {
            w.add(name, *kind, *size);
        }
    }
    w.finish()
}

#[test]
fn tek_dosya_tek_kalem_olur() {
    let mut w = Walker::start(Kind::File, 5);
    assert!(w.next_dir().is_none());
    let tree = w.finish();
    assert_eq!(tree.items.len(), 1);
    assert_eq!(tree.items[0].rel, "");
    assert_eq!(tree.items[0].kind, Kind::File);
    assert_eq!(tree.total_bytes, 5);
    assert_eq!(tree.files, 1);
    assert_eq!(tree.dirs, 0);
}

#[test]
fn agac_taranir_ve_toplam_boyut_dogru() {
    let tree = plan(&[
        ("", &[("kok.txt", Kind::File, 2), ("alt", Kind::Dir, 0)]),
        ("alt", &[("bir.txt", Kind::File, 3), ("derin", Kind::Dir, 0)]),
        ("alt/derin", &[("iki.txt", Kind::File, 4)]),
    ]);
    assert_eq!(tree.files, 3);
    assert_eq!(tree.dirs, 3);
    assert_eq!(tree.total_bytes, 2 + 3 + 4);
}

#[test]
fn dizinler_iceriklerinden_once_gelir() {
    let tree = plan(&[
        ("", &[("a", Kind::Dir, 0)]),
        ("a", &[("b", Kind::Dir, 0), ("yuzey.txt", Kind::File, 1)]),
        ("a/b", &[("c", Kind::Dir, 0)]),
        ("a/b/c", &[("derin.txt", Kind::File, 1)]),
    ]);
    let mut gorulen_dizinler: Vec<&str> = Vec::new();
    for it in &tree.items {
        if let Some((parent, _)) = it.rel.rsplit_once('/') {
            assert!(
                gorulen_dizinler.contains(&parent),
                "{} , ebeveyni {} listeye girmeden geldi",
                it.rel,
                parent
            );
        }
        if it.kind == Kind::Dir {
            gorulen_dizinler.push(&it.rel);
        }
    }
}

#[test]
fn sembolik_baglar_izlenmez_sayilir() {
    let tree = plan(&[
        ("", &[("gercek", Kind::Dir, 0), ("dongu", Kind::Symlink, 0)]),
        ("gercek", &[("dosya.txt", Kind::File, 1)]),
        ("dongu", &[("dosya.txt", Kind::File, 1)]),
    ]);
    assert_eq!(tree.symlinks, 1);
    assert_eq!(tree.files, 1);
    assert!(tree.items.iter().any(|i| i.rel == "dongu" && i.kind == Kind::Symlink));
}

#[test]
fn kok_yollari_bos_rel_ile_kokun_kendisi() {
    assert_eq!(remote_child("/srv/veri", ""), "/srv/veri");
    assert_eq!(remote_child("/srv/veri", "alt/a.txt"), "/srv/veri/alt/a.txt");
    assert_eq!(local_child("/tmp/k", ""), "/tmp/k");
    assert_eq!(
        local_child("/tmp/k", "alt/a.txt"),
        std::path::PathBuf::from("/tmp/k").join("alt").join("a.txt").to_string_lossy()
    );
}

#[test]
fn join_rel_bos_ebeveyni_atlar() {
    assert_eq!(join_rel("", "a"), "a");
    assert_eq!(join_rel("a", "b"), "a/b");
}

#[test]
fn ozet_yalnizca_dolu_alanlari_yazar() {
    let sade = TreeOutcome { files: 3, ..Default::default() };
    assert_eq!(sade.summary(), "3 dosya");

    let karisik = TreeOutcome {
        files: 3,
        dirs: 2,
        symlinks: 1,
        errors: 1,
        ..Default::default()
    };
    assert_eq!(karisik.summary(), "3 dosya · 2 klasör · 1 sembolik bağ atlandı · 1 hata");
}

#[test]
fn uzak_yol_birlestirme_ve_ust_dizin() {
    assert_eq!(remote_join("/", "etc"), "/etc");
    assert_eq!(remote_join("/home/u", "a.txt"), "/home/u/a.txt");
    assert_eq!(remote_join("/home/u/", "a.txt"), "/home/u/a.txt");
    assert_eq!(remote_parent("/home/u"), "/home");
    assert_eq!(remote_parent("/home"), "/");
    assert_eq!(remote_parent("/"), "/");
    assert_eq!(remote_parent("/home/u/"), "/home");
}

#[test]
fn okunamayan_dizin_sayilir_ve_atlanir() {
    let mut w = Walker::start(Kind::Dir, 0);
    assert_eq!(w.next_dir().as_deref(), Some(""));
    w.unreadable();
    assert!(w.next_dir().is_none());
    let tree = w.finish();
    assert_eq!(tree.unreadable, 1);
    assert_eq!(tree.dirs, 1);
}

#[test]
fn uzak_listedeki_nokta_girdileri_atlanir() {
    let mut w = Walker::start(Kind::Dir, 0);
    w.next_dir();
    w.add_remote(".", Kind::Dir, 0);
    w.add_remote("..", Kind::Dir, 0);
    w.add_remote("x", Kind::File, 7);
    let tree = w.finish();
    assert_eq!(tree.items.len(), 2);
    assert_eq!(tree.items[1].rel, "x");
    assert_eq!(tree.total_bytes, 7);
}

#[test]
fn ilerleme_dosya_sonunda_beklenen_boyuta_sabitlenir() {
    let tree = plan(&[("", &[("a", Kind::File, 10), ("b", Kind::File, 5)])]);
    let mut r = Reporter::new(&tree);
    assert_eq!(r.total, 15);
    r.start_file("a");
    r.bump(4);
    assert_eq!(r.progress().done, 4);
    r.finish_file(10);
    assert_eq!(r.done, 10);
    let p = r.progress();
    assert_eq!(p.files, Some((1, 2)));
    assert_eq!(p.label.as_deref(), Some("a"));
}

#[test]
fn ilk_hata_saklanir_sonrakiler_sayilir() {
    let tree = plan(&[("", &[("l", Kind::Symlink, 0)])]);
    let mut o = TreeOutcome::for_tree(&tree);
    assert_eq!(o.symlinks, 1);
    o.record(Kind::File, "a.txt", None);
    o.record(Kind::File, "b.txt", Some("izin yok".into()));
    o.record(Kind::Dir, "", Some("disk dolu".into()));
    assert_eq!(o.files, 1);
    assert_eq!(o.errors, 2);
    assert_eq!(o.first_error.as_deref(), Some("b.txt: izin yok"));
    let mut k = TreeOutcome::default();
    k.note_error("", "kopma");
    assert_eq!(k.first_error.as_deref(), Some("kök: kopma"));
}

#[test]
fn bir_hata_aktarimi_durdurmaz() {
    let mut t = Tree::new();
    t.push(String::new(), Kind::Dir, 0);
    t.push("a.txt".into(), Kind::File, 3);
    t.push("bag".into(), Kind::Symlink, 0);
    t.push("alt".into(), Kind::Dir, 0);
    t.push("alt/b.txt".into(), Kind::File, 5);
    t.push("alt/c.txt".into(), Kind::File, 7);
    let failures = vec![None, Some("izin yok".to_string()), None, None, None, Some("disk dolu".to_string())];
    let o = TreeOutcome::tally(&t, &failures);
    assert_eq!((o.files, o.dirs, o.errors, o.symlinks), (1, 2, 2, 1));
    assert_eq!(o.first_error.as_deref(), Some("a.txt: izin yok"));
    assert_eq!(o.summary(), "1 dosya · 2 klasör · 1 sembolik bağ atlandı · 2 hata");
}
