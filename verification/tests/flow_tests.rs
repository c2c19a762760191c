use app_inventory_generator::flow::{AppStep, BgResult, Screen};
use app_inventory_generator::scanner::PackageList;

#[test]
fn opening_screen() {
    let s = Screen::new();
    assert_eq!(s.step, AppStep::SelectTarget);
    assert!(s.search_results.is_empty());
    assert!(!s.searching);
}

#[test]
fn scan_result_opens_review() {
    let mut s = Screen::new();
    s.step = AppStep::Scanning;
    let mut list = PackageList::default();
    list.terminal.push(app_inventory_generator::selection::search_result_package("htop"));
    s.receive(BgResult::ScanDone(list));
    assert_eq!(s.step, AppStep::Review);
    assert_eq!(s.packages.terminal.len(), 1);
}

#[test]
fn generation_results() {
    let mut s = Screen::new();
    s.step = AppStep::Generating;
    s.receive(BgResult::GenerateDone(Ok("/home/me/app_inventory/mint_app_install.sh".into())));
    assert_eq!(s.step, AppStep::Done("/home/me/app_inventory/mint_app_install.sh".into()));
    s.receive(BgResult::GenerateDone(Err("disk full".into())));
    assert_eq!(s.step, AppStep::Error("disk full".into()));
}

#[test]
fn search_results_end_searching() {
    let mut s = Screen::new();
    s.step = AppStep::Review;
    s.searching = true;
    s.receive(BgResult::SearchDone(vec!["vim".into(), "neovim".into()]));
    assert!(!s.searching);
    assert_eq!(s.search_results, vec!["vim".to_string(), "neovim".to_string()]);
    assert_eq!(s.step, AppStep::Review);
}
