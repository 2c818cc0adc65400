use orbix::digest::{digest_matches, md5_hex, to_lower_hex};
use orbix::fetch::{base_file_table, download_list, next_fetch_action, FetchAction, FetchEvent};
use orbix::paths::{join_path, store_path, target_path, StoreItem, TargetItem};

#[test]
fn hex_is_lowercase_two_digits_per_byte() {
    assert_eq!(to_lower_hex(&[0x00, 0xff, 0x1a, 0x09]), "00ff1a09");
    assert_eq!(to_lower_hex(&[]), "");
}

#[test]
fn md5_of_known_texts() {
    assert_eq!(md5_hex(b""), "d41d8cd98f00b204e9800998ecf8427e");
    assert_eq!(md5_hex(b"abcdefghijklmnopqrstuvwxyz"), "c3fcd3d76192e4007dfb496cca67e13b");
}

#[test]
fn digest_match_needs_exact_lowercase_text() {
    assert!(digest_matches("d41d8cd98f00b204e9800998ecf8427e", b""));
    assert!(!digest_matches("D41D8CD98F00B204E9800998ECF8427E", b""));
    assert!(!digest_matches("d41d8cd98f00b204e9800998ecf8427e", b"x"));
    assert!(!digest_matches("", b""));
}

#[test]
fn join_follows_path_rules() {
    assert_eq!(join_path("/home/u", ".local"), "/home/u/.local");
    assert_eq!(join_path("/home/u/", ".local"), "/home/u/.local");
    assert_eq!(join_path("", "x"), "x");
    assert_eq!(join_path("/a", "/b"), "/b");
    assert_eq!(join_path("a", ""), "a/");
    for (b, r) in [("/srv/cod", "main/myserver.cfg"), ("rel", "x"), ("/", "y"), ("a//", "b")] {
        let std = std::path::Path::new(b).join(r);
        assert_eq!(join_path(b, r), std.to_str().unwrap());
    }
}

#[test]
fn store_layout() {
    let h = "/home/u";
    assert_eq!(store_path(h, StoreItem::DataDir), "/home/u/.local/share/orbix");
    assert_eq!(store_path(h, StoreItem::PakDir), "/home/u/.local/share/orbix/main");
    assert_eq!(
        store_path(h, StoreItem::ServerArchive),
        "/home/u/.local/share/orbix/cod-lnxded-1.1d.tar.bz2"
    );
    assert_eq!(store_path(h, StoreItem::DepsDebian), "/home/u/.local/share/orbix/deps_debian");
    assert_eq!(store_path(h, StoreItem::DepsArch), "/home/u/.local/share/orbix/deps_arch");
    assert_eq!(store_path(h, StoreItem::CompileScript), "/home/u/.local/share/orbix/compile_iw1x");
    assert_eq!(store_path(h, StoreItem::Iw1xBinDir), "/home/u/.local/share/orbix/iw1x-server/bin");
}

#[test]
fn target_layout() {
    let t = "/srv/cod/";
    assert_eq!(target_path(t, TargetItem::MainDir), "/srv/cod/main");
    assert_eq!(target_path(t, TargetItem::ServerConfig), "/srv/cod/main/myserver.cfg");
    assert_eq!(target_path(t, TargetItem::ServerArchive), "/srv/cod/cod-lnxded-1.1d.tar.bz2");
    assert_eq!(target_path(t, TargetItem::Iw1xLibrary), "/srv/cod/iw1x.so");
    assert_eq!(target_path(t, TargetItem::ServerBinary), "/srv/cod/cod_lnxded");
    assert_eq!(target_path(t, TargetItem::StartScript), "/srv/cod/start.sh");
}

#[test]
fn pak_dir_agrees_with_download_dir() {
    for h in ["/home/u", "/home/u/", "", "/"] {
        let main = join_path(&store_path(h, StoreItem::DataDir), "main");
        assert_eq!(main, store_path(h, StoreItem::PakDir));
        let archive = join_path(&store_path(h, StoreItem::DataDir), "cod-lnxded-1.1d.tar.bz2");
        assert_eq!(archive, store_path(h, StoreItem::ServerArchive));
    }
}

#[test]
fn downloads_in_order() {
    assert_eq!(base_file_table().len(), 9);
    let d = download_list("/home/u");
    assert_eq!(d.len(), 10);
    assert_eq!(d[0].url, "https://de.dvotx.org/dump/cod1/basefiles/localized_english_pak0.pk3");
    assert_eq!(d[0].path, "/home/u/.local/share/orbix/main/localized_english_pak0.pk3");
    assert_eq!(d[0].md5, "f103bd8e20785ecaed1fed5be0c0fe16");
    assert_eq!(d[8].url, "https://de.dvotx.org/dump/cod1/basefiles/pak6.pk3");
    assert_eq!(d[8].md5, "d8b721be71c0f21fc98901c12cccf3ec");
    assert_eq!(d[9].url, "https://de.dvotx.org/dump/cod1/cod-lnxded-1.1d.tar.bz2");
    assert_eq!(d[9].path, "/home/u/.local/share/orbix/cod-lnxded-1.1d.tar.bz2");
    assert_eq!(d[9].md5, "5269ed44b0da8692cd5e61c76b6823d7");
}

#[test]
fn fetch_plan_steps() {
    assert_eq!(next_fetch_action(0, FetchEvent::Started), FetchAction::Finished);
    assert_eq!(next_fetch_action(3, FetchEvent::Started), FetchAction::Check { index: 0 });
    assert_eq!(
        next_fetch_action(3, FetchEvent::Checked { index: 1, valid: false }),
        FetchAction::Download { index: 1 }
    );
    assert_eq!(next_fetch_action(3, FetchEvent::Downloaded { index: 1 }), FetchAction::Check { index: 1 });
    assert_eq!(
        next_fetch_action(3, FetchEvent::Checked { index: 1, valid: true }),
        FetchAction::Check { index: 2 }
    );
    assert_eq!(
        next_fetch_action(3, FetchEvent::Checked { index: 2, valid: true }),
        FetchAction::Finished
    );
}

#[test]
fn fetch_plan_retries_until_valid() {
    // Check outcomes: file 0 fails twice, then everything passes.
    let outcomes = [false, false, true, true, false, true];
    let mut action = next_fetch_action(3, FetchEvent::Started);
    let mut log = Vec::new();
    let mut k = 0;
    while action != FetchAction::Finished {
        log.push(action);
        action = match action {
            FetchAction::Check { index } => {
                let valid = outcomes[k];
                k += 1;
                next_fetch_action(3, FetchEvent::Checked { index, valid })
            }
            FetchAction::Download { index } => next_fetch_action(3, FetchEvent::Downloaded { index }),
            FetchAction::Finished => unreachable!(),
        };
    }
    assert_eq!(
        log,
        vec![
            FetchAction::Check { index: 0 },
            FetchAction::Download { index: 0 },
            FetchAction::Check { index: 0 },
            FetchAction::Download { index: 0 },
            FetchAction::Check { index: 0 },
            FetchAction::Check { index: 1 },
            FetchAction::Check { index: 2 },
            FetchAction::Download { index: 2 },
            FetchAction::Check { index: 2 },
        ]
    );
    assert_eq!(k, outcomes.len());
}

#[test]
fn intact_files_are_not_downloaded_again() {
    let count = download_list("/home/u").len();
    let mut action = next_fetch_action(count, FetchEvent::Started);
    let mut checked = Vec::new();
    while action != FetchAction::Finished {
        match action {
            FetchAction::Check { index } => {
                checked.push(index);
                action = next_fetch_action(count, FetchEvent::Checked { index, valid: true });
            }
            FetchAction::Download { .. } => panic!("an intact file was downloaded"),
            FetchAction::Finished => unreachable!(),
        }
    }
    assert_eq!(checked, (0..count).collect::<Vec<usize>>());
}
