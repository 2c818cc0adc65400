use orbix::install::{
    check_target, link_path, supported_distro, target_source, Distro, TargetError,
    TargetSource,
};
use orbix::paths::StoreItem;
use orbix::server::{chmod_command, config_text, start_script, time_zone_city};

#[test]
fn config_names_distribution_and_country() {
    let c = config_text("Debian GNU/Linux 12 (bookworm)", "Germany");
    assert!(c.starts_with("\n// Add server to xFire\nset gamename \"Call of Duty\"\n"));
    assert!(c.contains("\nsets ^1Distro \"Debian GNU/Linux 12 (bookworm)\"\n"));
    assert!(c.contains("\nsets ^1Location \"^2Germany\"\n"));
    assert!(c.contains("\nset sv_maprotation \"gametype sd map mp_harbor\"\n"));
    assert!(c.ends_with("//exec CoDaM_MiscMod.cfg\n\n"));
    let empty = config_text("", "");
    assert_eq!(c.len(), empty.len() + "Debian GNU/Linux 12 (bookworm)".len() + "Germany".len());
}

#[test]
fn start_script_text() {
    assert_eq!(
        start_script("/srv/cod"),
        "#!/bin/bash\nLD_PRELOAD=\"/srv/cod/iw1x.so\" \"/srv/cod/cod_lnxded\" +set fs_homepath \"/srv/cod\" +set fs_basepath \"/srv/cod\" +set developer_script 1 +exec myserver.cfg +map_rotate\n"
    );
    assert_eq!(
        start_script("/srv/cod/"),
        "#!/bin/bash\nLD_PRELOAD=\"/srv/cod/iw1x.so\" \"/srv/cod/cod_lnxded\" +set fs_homepath \"/srv/cod/\" +set fs_basepath \"/srv/cod/\" +set developer_script 1 +exec myserver.cfg +map_rotate\n"
    );
}

#[test]
fn time_zone_city_is_second_part() {
    assert_eq!(time_zone_city("Europe/Berlin"), Some("Berlin".to_string()));
    assert_eq!(time_zone_city("America/Argentina/Buenos_Aires"), Some("Argentina".to_string()));
    assert_eq!(time_zone_city("Etc/ GMT "), Some("GMT".to_string()));
    assert_eq!(time_zone_city("UTC"), None);
    assert_eq!(time_zone_city("Asia/"), Some("".to_string()));
}

#[test]
fn chmod_command_text() {
    assert_eq!(chmod_command("/home/u/.local/share/orbix/deps_arch"), "chmod +x /home/u/.local/share/orbix/deps_arch");
}

#[test]
fn target_from_arguments() {
    assert_eq!(target_source(2), TargetSource::Argument);
    assert_eq!(target_source(1), TargetSource::Prompt);
    assert_eq!(target_source(0), TargetSource::Usage);
    assert_eq!(target_source(3), TargetSource::Usage);
}

#[test]
fn target_directory_checks() {
    assert_eq!(check_target(false, false, None), Err(TargetError::NotADirectory));
    assert_eq!(check_target(true, false, Some(false)), Err(TargetError::NotADirectory));
    assert_eq!(check_target(true, true, None), Err(TargetError::Unreadable));
    assert_eq!(check_target(true, true, Some(true)), Err(TargetError::NotEmpty));
    assert_eq!(check_target(true, true, Some(false)), Ok(()));
    assert_eq!(TargetError::NotADirectory.message(), "Target is not a directory");
    assert_eq!(TargetError::Unreadable.message(), "Failed to read the directory");
    assert_eq!(TargetError::NotEmpty.message(), "Target directory is not empty");
}

#[test]
fn distro_scripts() {
    assert_eq!(supported_distro("debian"), Some(Distro::Debian));
    assert_eq!(supported_distro("arch"), Some(Distro::Arch));
    assert_eq!(supported_distro("ubuntu debian"), None);
    assert_eq!(supported_distro("unknown"), None);
    assert_eq!(Distro::Debian.script(), StoreItem::DepsDebian);
    assert_eq!(Distro::Arch.script(), StoreItem::DepsArch);
}

#[test]
fn pak_links() {
    assert_eq!(link_path("/srv/cod", "pak0.pk3"), "/srv/cod/main/pak0.pk3");
    assert_eq!(link_path("/srv/cod/", "pak1.pk3"), "/srv/cod/main/pak1.pk3");
}
