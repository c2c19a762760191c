use app_inventory_generator::osrelease::{
    classify_os_id, classify_os_like, detect_distro, theme_is_dark,
};
use app_inventory_generator::scanner::Distro;

#[test]
fn detects_by_id() {
    assert_eq!(detect_distro("NAME=\"Ubuntu\"\nID=ubuntu\nID_LIKE=debian\n"), Distro::Debian);
    assert_eq!(detect_distro("ID=\"fedora\"\n"), Distro::Fedora);
    assert_eq!(detect_distro("ID=EndeavourOS\n"), Distro::Arch);
    assert_eq!(detect_distro("ID=\"opensuse-tumbleweed\"\n"), Distro::OpenSuse);
    assert_eq!(detect_distro("ID=linuxmint\r\n"), Distro::Debian);
}

#[test]
fn falls_back_to_id_like() {
    assert_eq!(detect_distro("ID=neon\nID_LIKE=\"ubuntu debian\"\n"), Distro::Debian);
    assert_eq!(detect_distro("ID=nobara\nID_LIKE=\"rhel centos fedora\"\n"), Distro::Fedora);
    assert_eq!(detect_distro("ID=cachyos\nID_LIKE=arch\n"), Distro::Arch);
    assert_eq!(detect_distro("ID=sles\nID_LIKE=\"suse\"\n"), Distro::OpenSuse);
    assert_eq!(detect_distro("ID=gentoo\n"), Distro::Unknown);
    assert_eq!(detect_distro(""), Distro::Unknown);
}

#[test]
fn first_id_line_counts() {
    assert_eq!(detect_distro("ID=arch\nID=debian\n"), Distro::Arch);
    assert_eq!(detect_distro("VERSION_ID=12\nID=debian\n"), Distro::Debian);
}

#[test]
fn classifiers() {
    assert_eq!(classify_os_id("pop"), Distro::Debian);
    assert_eq!(classify_os_id("rocky"), Distro::Fedora);
    assert_eq!(classify_os_id("garuda"), Distro::Arch);
    assert_eq!(classify_os_id("opensuse-leap"), Distro::OpenSuse);
    assert_eq!(classify_os_id("Ubuntu"), Distro::Unknown);
    assert_eq!(classify_os_like("archlinux"), Distro::Arch);
    assert_eq!(classify_os_like("debian fedora"), Distro::Debian);
    assert_eq!(classify_os_like("void"), Distro::Unknown);
}

#[test]
fn theme_darkness() {
    assert!(theme_is_dark("'Mint-Y-Dark-Aqua'\n"));
    assert!(!theme_is_dark("'Mint-Y-Light'\n"));
    assert!(!theme_is_dark("'Adwaita-LIGHT'"));
    assert!(theme_is_dark(""));
}
