use osinfo::linux::{distributions, get_info, get_os_data, retrieve, FieldRule, ReleaseInfo};
use osinfo::windows::{self, CurrentVersion};
use osinfo::{Matcher, OSInfo, Version};

fn lsb_release() -> ReleaseInfo {
    ReleaseInfo {
        path: "etc/lsb-release",
        id: FieldRule::Find(Matcher::KeyValue { key: "DISTRIB_ID" }),
        name: FieldRule::Find(Matcher::KeyValue { key: "DISTRIB_DESCRIPTION" }),
        version: FieldRule::Find(Matcher::KeyValue { key: "DISTRIB_RELEASE" }),
        variant: FieldRule::Find(Matcher::KeyValue { key: "DISTRIB_VARIANT" }),
        codename: FieldRule::Find(Matcher::KeyValue { key: "DISTRIB_CODENAME" }),
    }
}

#[test]
fn os_release_scenario() {
    let text = "ID=ubuntu\nNAME=\"Ubuntu\"\nVERSION_ID=\"22.04\"\nVERSION=\"22.04.1 LTS (Jammy Jellyfish)\"\n";
    let info = get_os_data(&vec![Some(text.to_string())]).unwrap();
    assert_eq!(info.get_id(), "ubuntu");
    assert_eq!(info.get_name(), "Ubuntu");
    assert_eq!(info.get_version(), Version::Semantic(22, 4, 0, 0));
    assert_eq!(info.get_variant(), "client");
    assert_eq!(info.get_edition(), "");
    assert_eq!(info.edition, None);
    assert_eq!(info.get_codename(), "Jammy Jellyfish");
}

#[test]
fn os_release_codename_and_variant_keys_win() {
    let text = "VARIANT_ID=server\nVERSION_CODENAME=bookworm\nVERSION=\"12 (ignored)\"\nID=debian\n";
    let info = get_info(&vec![Some(text.to_string())]);
    assert_eq!(info.get_id(), "debian");
    assert_eq!(info.name, None);
    assert_eq!(info.get_version(), Version::Unknown);
    assert_eq!(info.get_variant(), "server");
    assert_eq!(info.get_codename(), "bookworm");
}

#[test]
fn os_release_codename_needs_parentheses() {
    let text = "ID=arch\nVERSION_ID=rolling\nVERSION=rolling\n";
    let info = get_info(&vec![Some(text.to_string())]);
    assert_eq!(info.get_version(), Version::Custom("rolling".to_string()));
    assert_eq!(info.codename, None);
    let text = "ID=arch\n";
    let info = get_info(&vec![Some(text.to_string())]);
    assert_eq!(info.codename, None);
}

#[test]
fn missing_or_unidentified_file_gives_unknown() {
    assert_eq!(get_os_data(&vec![None]), None);
    assert_eq!(get_os_data(&vec![]), None);
    assert_eq!(get_os_data(&vec![Some("NAME=x\n".to_string())]), None);
    assert_eq!(get_info(&vec![None]), OSInfo::unknown());
}

#[test]
fn resolver_falls_through_to_second_candidate() {
    let table = vec![distributions().remove(0), lsb_release()];
    let text = "DISTRIB_ID=Ubuntu\nDISTRIB_RELEASE=20.04\nDISTRIB_CODENAME=focal\n";
    let contents = vec![Some(text.to_string()), Some(text.to_string())];
    let info = retrieve(&table, &contents).unwrap();
    assert_eq!(
        info,
        OSInfo {
            id: Some("Ubuntu".to_string()),
            name: None,
            version: Version::Semantic(20, 4, 0, 0),
            variant: None,
            edition: None,
            codename: Some("focal".to_string()),
        }
    );
}

#[test]
fn resolver_stops_at_first_match() {
    let table = vec![distributions().remove(0), lsb_release()];
    let contents = vec![
        Some("ID=fedora\n".to_string()),
        Some("DISTRIB_ID=Other\nDISTRIB_CODENAME=x\n".to_string()),
    ];
    let info = retrieve(&table, &contents).unwrap();
    assert_eq!(info.get_id(), "fedora");
    assert_eq!(info.codename, None);
    assert_eq!(info.get_variant(), "client");
}

#[test]
fn resolver_skips_unreadable_source() {
    let table = vec![distributions().remove(0), lsb_release()];
    let contents = vec![None, Some("DISTRIB_ID=Gentoo\n".to_string())];
    assert_eq!(retrieve(&table, &contents).unwrap().get_id(), "Gentoo");
    let contents = vec![None, Some("nothing here".to_string())];
    assert_eq!(retrieve(&table, &contents), None);
}

#[test]
fn candidate_table() {
    let table = distributions();
    assert_eq!(table.len(), 1);
    assert_eq!(table[0].path, "etc/os-release");
}

#[test]
fn windows_values() {
    let values = CurrentVersion {
        major: Some(10),
        minor: Some(0),
        build: Some("22631".to_string()),
        ubr: Some(3296),
        product_name: Some("Windows 10 Pro".to_string()),
        installation_type: Some("Client".to_string()),
        edition_id: Some("Professional".to_string()),
        display_version: Some("23H2".to_string()),
    };
    let info = windows::get_info(Some(values));
    assert_eq!(info.get_id(), "windows");
    assert!(info.get_name().contains("Windows"));
    assert_eq!(info.get_version(), Version::Semantic(10, 0, 22631, 3296));
    assert_eq!(info.get_variant(), "Client");
    assert_eq!(info.get_edition(), "Professional");
    assert_eq!(info.get_codename(), "23H2");
}

#[test]
fn windows_missing_values() {
    let values = CurrentVersion {
        major: None,
        minor: Some(3),
        build: Some("x9".to_string()),
        ubr: None,
        product_name: None,
        installation_type: None,
        edition_id: None,
        display_version: None,
    };
    assert_eq!(windows::get_version(&values), Version::Semantic(0, 3, 0, 0));
    let info = windows::get_info(None);
    assert_eq!(info.get_id(), "windows");
    assert_eq!(info.get_name(), "");
    assert_eq!(info.get_version(), Version::Unknown);
}
