use app_inventory_generator::desktop::select_menu_packages;
use app_inventory_generator::resolver::{
    local_resolution, resolution_from_lookup, urlencoded, Resolution, TargetDistro,
};
use app_inventory_generator::scanner::{scan_flatpak, scan_snap, scan_terminal, Package, Source};
use app_inventory_generator::versions::VersionMap;

fn pkg(name: &str, display: &str) -> Package {
    Package {
        name: name.to_string(),
        display_name: display.to_string(),
        version: String::new(),
        source: Source::Apt,
        flatpak_id: None,
        config_path: None,
        resolution: None,
        selected: false,
    }
}

#[test]
fn law_version_map_read_after_write() {
    let mut m = VersionMap::new();
    m.insert("a".into(), "1".into());
    let before_b = m.version_of(&"b".to_string());
    m.insert("a".into(), "2".into());
    assert_eq!(m.version_of(&"a".to_string()), "2");
    assert_eq!(m.version_of(&"b".to_string()), before_b);
}

#[test]
fn law_url_encoding_of_unreserved_is_identity() {
    assert_eq!(urlencoded("Firefox-esr_1.0~x"), "Firefox-esr_1.0~x");
}

#[test]
fn law_derivatives_share_ubuntu_repo() {
    assert_eq!(TargetDistro::Mint.repology_repo(), TargetDistro::Ubuntu.repology_repo());
    assert_eq!(TargetDistro::PopOs.repology_repo(), TargetDistro::Ubuntu.repology_repo());
}

#[test]
fn law_scanned_packages_start_unselected() {
    let f = scan_flatpak("a.b\tA\t1\n", true);
    assert!(f.iter().all(|p| !p.selected));
    assert_eq!(f[0].flatpak_id.as_deref(), Some(f[0].name.as_str()));
    let s = scan_snap("Name Version\nvlc 3 1 latest videolan -\n", &Vec::new());
    assert!(s.iter().all(|p| !p.selected));
    assert_eq!(
        s[0].resolution,
        Some(Resolution::Snap { name: s[0].name.clone(), classic: false })
    );
}

#[test]
fn law_menu_names_unique_and_sorted() {
    let menu = select_menu_packages(
        vec![pkg("b", "Beta"), pkg("a", "Alpha"), pkg("b", "Beta 2"), pkg("c", "Alpha")],
        &Vec::new(),
    );
    let names: Vec<&str> = menu.iter().map(|p| p.name.as_str()).collect();
    assert_eq!(names, vec!["a", "c", "b"]);
    for w in menu.windows(2) {
        assert!(w[0].display_name <= w[1].display_name);
    }
}

#[test]
fn law_terminal_excludes_menu_and_flatpak_names() {
    let t = scan_terminal(
        vec![pkg("x", "x"), pkg("y", "y"), pkg("z", "z")],
        &vec!["x".to_string()],
        &vec!["z".to_string()],
    );
    assert_eq!(t.len(), 1);
    assert_eq!(t[0].name, "y");
}

fn percent_decode(t: &str) -> String {
    let cs: Vec<char> = t.chars().collect();
    let mut out = String::new();
    let mut i = 0;
    while i < cs.len() {
        if cs[i] == '%' && i + 2 < cs.len() {
            let code = u32::from_str_radix(&cs[i + 1..i + 3].iter().collect::<String>(), 16).unwrap();
            out.push(char::from_u32(code).unwrap());
            i += 3;
        } else {
            out.push(cs[i]);
            i += 1;
        }
    }
    out
}

#[test]
fn law_url_encoding_round_trip_and_length() {
    for s in ["hello world", "a+b/c", "C++ & \"tools\"", "tab\there", "plain-name_1.0~x", ""] {
        let e = urlencoded(s);
        assert_eq!(percent_decode(&e), s);
        let reserved = s
            .chars()
            .filter(|c| !(c.is_ascii_alphanumeric() || "-_.~".contains(*c)))
            .count();
        assert_eq!(e.chars().count(), s.chars().count() + 2 * reserved);
    }
}

#[test]
fn law_native_resolution_first() {
    for t in TargetDistro::all() {
        match local_resolution("gimp", &t) {
            Some(r) => assert_eq!(r, Resolution::Native("gimp".to_string())),
            None => {
                assert_eq!(
                    resolution_from_lookup(Some("gimp".to_string()), Some("org.gimp.GIMP")),
                    Resolution::Native("gimp".to_string())
                );
                assert_eq!(
                    resolution_from_lookup(None, Some("org.gimp.GIMP")),
                    Resolution::Flatpak("org.gimp.GIMP".to_string())
                );
            }
        }
    }
}
