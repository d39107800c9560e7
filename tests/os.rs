use rinfo::error::InfoError;
use rinfo::model::{OperatingSystem, OsArt, OsKind};
use rinfo::os::{operating_system, os_art, os_info, os_name};

#[test]
fn arch_release_gets_arch_banner() {
    let text = "NAME=\"Arch Linux\"\nPRETTY_NAME=\"Arch Linux\"\nID=arch\n";
    assert_eq!(os_info(Some(text), None), Ok(("Arch Linux".to_string(), OsArt::ArchLinux)));
}

#[test]
fn unknown_release_gets_generic_banner() {
    let text = "NAME=\"Plan Nine\"\n";
    assert_eq!(os_info(Some(text), None), Ok(("Plan Nine".to_string(), OsArt::Unknown)));
    assert_eq!(os_info(Some(""), None), Ok((String::new(), OsArt::Unknown)));
}

#[test]
fn art_table() {
    assert_eq!(os_art("Alpine Linux"), Ok(OsArt::AlpineLinux));
    assert_eq!(os_art("Debian GNU/Linux"), Ok(OsArt::Debian));
    assert_eq!(os_art("arch linux"), Ok(OsArt::Unknown));
}

#[test]
fn lsb_release_is_the_fallback() {
    let lsb = "DISTRIB_ID=Debian\nDISTRIB_DESCRIPTION=\"Debian GNU/Linux\"\n";
    assert_eq!(os_name(None, Some(lsb)), Ok("Debian GNU/Linux".to_string()));
    assert_eq!(os_name(Some("NAME=Alpine Linux\n"), Some(lsb)), Ok("Alpine Linux".to_string()));
}

#[test]
fn no_release_file() {
    assert_eq!(
        os_name(None, None),
        Err(InfoError::FileRead { path: "/etc/lsb-release".to_string() })
    );
}

#[test]
fn whole_os_fact() {
    assert_eq!(
        operating_system("linux", Some("NAME=\"Arch Linux\"\n"), None),
        Ok(OperatingSystem {
            name: "Arch Linux".to_string(),
            kind: OsKind::Linux,
            art: OsArt::ArchLinux,
        })
    );
    let os = operating_system("haiku", Some("NAME=x\n"), None).unwrap();
    assert_eq!(os.kind, OsKind::Unknown);
    assert_eq!(os.render(), "OS: x (Unknown)");
}

#[test]
fn kinds_by_target() {
    assert_eq!(OsKind::from_target("windows"), OsKind::Windows);
    assert_eq!(OsKind::from_target("macos"), OsKind::MacOs);
    assert_eq!(OsKind::from_target("freebsd"), OsKind::FreeBsd);
    assert_eq!(OsKind::Linux.name(), "linux");
}
