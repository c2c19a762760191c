use app_inventory_generator::resolver::{
    collect_search_names, insert_sorted_unique, local_resolution, pick_project_name, project_url,
    resolution_from_lookup, search_url, urlencoded, JsonText, RepologyPackage, Resolution,
    SearchEntry, TargetDistro,
};

#[test]
fn target_labels() {
    assert_eq!(TargetDistro::Debian.label(), "Debian");
    assert_eq!(TargetDistro::Ubuntu.label(), "Ubuntu");
    assert_eq!(TargetDistro::Mint.label(), "Linux Mint");
    assert_eq!(TargetDistro::PopOs.label(), "Pop!_OS");
    assert_eq!(TargetDistro::Fedora.label(), "Fedora");
    assert_eq!(TargetDistro::Arch.label(), "Arch Linux");
    assert_eq!(TargetDistro::Manjaro.label(), "Manjaro");
    assert_eq!(TargetDistro::OpenSuse.label(), "openSUSE");
}

#[test]
fn target_repology_repos() {
    assert_eq!(TargetDistro::Debian.repology_repo(), "debian_stable");
    assert_eq!(TargetDistro::Ubuntu.repology_repo(), "ubuntu_24_04");
    assert_eq!(TargetDistro::Mint.repology_repo(), "ubuntu_24_04");
    assert_eq!(TargetDistro::PopOs.repology_repo(), "ubuntu_24_04");
    assert_eq!(TargetDistro::Fedora.repology_repo(), "fedora_44");
    assert_eq!(TargetDistro::Arch.repology_repo(), "arch");
    assert_eq!(TargetDistro::Manjaro.repology_repo(), "manjaro_stable");
    assert_eq!(TargetDistro::OpenSuse.repology_repo(), "opensuse_tumbleweed");
}

#[test]
fn target_slugs() {
    assert_eq!(TargetDistro::Debian.slug(), "debian");
    assert_eq!(TargetDistro::Ubuntu.slug(), "ubuntu");
    assert_eq!(TargetDistro::Mint.slug(), "mint");
    assert_eq!(TargetDistro::PopOs.slug(), "popos");
    assert_eq!(TargetDistro::Fedora.slug(), "fedora");
    assert_eq!(TargetDistro::Arch.slug(), "arch");
    assert_eq!(TargetDistro::Manjaro.slug(), "manjaro");
    assert_eq!(TargetDistro::OpenSuse.slug(), "opensuse");
}

#[test]
fn all_targets_in_display_order_each_once() {
    let all = TargetDistro::all();
    assert_eq!(
        all,
        vec![
            TargetDistro::Ubuntu,
            TargetDistro::Debian,
            TargetDistro::Mint,
            TargetDistro::PopOs,
            TargetDistro::Fedora,
            TargetDistro::Arch,
            TargetDistro::Manjaro,
            TargetDistro::OpenSuse,
        ]
    );
    for (i, a) in all.iter().enumerate() {
        for b in all.iter().skip(i + 1) {
            assert_ne!(a, b);
            assert_ne!(a.slug(), b.slug());
        }
    }
}

#[test]
fn urlencoded_keeps_unreserved() {
    assert_eq!(urlencoded("Az09-_.~"), "Az09-_.~");
    assert_eq!(urlencoded(""), "");
}

#[test]
fn urlencoded_space_and_symbols() {
    assert_eq!(urlencoded("hello world"), "hello%20world");
    assert_eq!(urlencoded("a+b/c"), "a%2Bb%2Fc");
    assert_eq!(urlencoded("\n"), "%0A");
    assert_eq!(urlencoded("%"), "%25");
}

#[test]
fn urlencoded_non_ascii_uses_code_point() {
    assert_eq!(urlencoded("é"), "%E9");
    assert_eq!(urlencoded("\u{1F600}"), "%1F600");
    assert_eq!(urlencoded("\u{100}"), "%100");
}

#[test]
fn urlencoded_output_is_safe() {
    let out = urlencoded("weird name/with:stuff ü");
    assert!(out
        .chars()
        .all(|c| c.is_ascii_alphanumeric() || "-_.~%".contains(c)));
}

#[test]
fn repology_urls() {
    assert_eq!(project_url("vlc"), "https://repology.org/api/v1/project/vlc");
    assert_eq!(project_url("a b"), "https://repology.org/api/v1/project/a%20b");
    assert_eq!(
        search_url("gimp", &TargetDistro::Arch),
        "https://repology.org/api/v1/projects/?search=gimp&inrepo=arch&limit=20"
    );
    assert_eq!(
        search_url("text editor", &TargetDistro::Mint),
        "https://repology.org/api/v1/projects/?search=text%20editor&inrepo=ubuntu_24_04&limit=20"
    );
}

#[test]
fn flatpak_id_is_only_the_fallback() {
    // A name found by the lookup wins over the Flatpak ID.
    assert_eq!(
        resolution_from_lookup(Some("gimp".to_string()), Some("org.gimp.GIMP")),
        Resolution::Native("gimp".to_string())
    );
    // The Flatpak ID is used when the lookup finds nothing.
    assert_eq!(
        resolution_from_lookup(None, Some("org.gimp.GIMP")),
        Resolution::Flatpak("org.gimp.GIMP".to_string())
    );
}

#[test]
fn apt_family_needs_no_lookup() {
    for t in [TargetDistro::Debian, TargetDistro::Ubuntu, TargetDistro::Mint, TargetDistro::PopOs] {
        assert_eq!(
            local_resolution("vlc", &t),
            Some(Resolution::Native("vlc".to_string()))
        );
    }
    for t in [TargetDistro::Fedora, TargetDistro::Arch, TargetDistro::Manjaro, TargetDistro::OpenSuse] {
        assert_eq!(local_resolution("vlc", &t), None);
    }
}

#[test]
fn lookup_result_becomes_resolution() {
    assert_eq!(
        resolution_from_lookup(Some("vlc-bin".to_string()), None),
        Resolution::Native("vlc-bin".to_string())
    );
    assert_eq!(resolution_from_lookup(None, None), Resolution::Unresolved);
}

fn rp(repo: &str, name: Option<&str>, binname: Option<&str>) -> RepologyPackage {
    RepologyPackage {
        repo: repo.to_string(),
        name: name.map(|s| s.to_string()),
        binname: binname.map(|s| s.to_string()),
    }
}

#[test]
fn pick_prefers_binname_of_first_matching_record() {
    let pkgs = vec![
        rp("debian_stable", Some("vlc"), Some("vlc")),
        rp("arch", Some("vlc-src"), Some("vlc-bin")),
        rp("arch", Some("other"), Some("other")),
    ];
    assert_eq!(pick_project_name(&pkgs, "arch"), Some("vlc-bin".to_string()));
}

#[test]
fn pick_falls_back_to_name() {
    let pkgs = vec![rp("fedora_44", Some("vlc"), None)];
    assert_eq!(pick_project_name(&pkgs, "fedora_44"), Some("vlc".to_string()));
}

#[test]
fn pick_stops_at_first_matching_record() {
    let pkgs = vec![rp("arch", None, None), rp("arch", Some("late"), None)];
    assert_eq!(pick_project_name(&pkgs, "arch"), None);
    assert_eq!(pick_project_name(&pkgs, "fedora_44"), None);
    assert_eq!(pick_project_name(&Vec::new(), "arch"), None);
}

fn se(repo: Option<&str>, binname: JsonText, name: JsonText) -> SearchEntry {
    SearchEntry { repo: repo.map(|s| s.to_string()), binname, name }
}

fn text(s: &str) -> JsonText {
    JsonText::Text(s.to_string())
}

#[test]
fn search_names_sorted_deduplicated_one_per_project() {
    let projects = vec![
        vec![
            se(Some("arch"), text("zed"), text("zed-src")),
            se(Some("arch"), text("zed2"), JsonText::Absent),
        ],
        vec![se(Some("fedora_44"), text("foo"), JsonText::Absent)],
        vec![
            se(Some("arch"), JsonText::Other, text("ignored")),
            se(Some("arch"), JsonText::Absent, text("alpha")),
        ],
        vec![se(Some("arch"), JsonText::Absent, text("zed"))],
        vec![se(None, text("nothing"), JsonText::Absent)],
    ];
    assert_eq!(
        collect_search_names(&projects, "arch"),
        vec!["alpha".to_string(), "zed".to_string()]
    );
}

#[test]
fn search_names_empty_when_repo_absent() {
    let projects = vec![vec![se(Some("arch"), text("x"), JsonText::Absent)]];
    assert!(collect_search_names(&projects, "debian_stable").is_empty());
    assert!(collect_search_names(&Vec::new(), "arch").is_empty());
}

#[test]
fn sorted_insert_keeps_order_and_uniqueness() {
    let mut v: Vec<String> = Vec::new();
    for x in ["pear", "apple", "fig", "apple", "Zebra", "fig"] {
        insert_sorted_unique(&mut v, x.to_string());
    }
    assert_eq!(v, vec!["Zebra", "apple", "fig", "pear"]);
}
