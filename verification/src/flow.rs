//! The screens of the application and how background results move between them.

use vstd::prelude::*;

use crate::scanner::PackageList;

verus! {

/// The step the application is at.
#[derive(Debug, Clone, PartialEq, Eq)]
pub enum AppStep {
    SelectTarget,
    Scanning,
    Review,
    Generating,
    /// The script was written to this path.
    Done(String),
    /// Generation failed with this message.
    Error(String),
}

/// What a background task hands back.
#[derive(Debug)]
pub enum BgResult {
    ScanDone(PackageList),
    GenerateDone(Result<String, String>),
    SearchDone(Vec<String>),
}

/// The state that background results change.
#[derive(Debug)]
pub struct Screen {
    pub step: AppStep,
    pub packages: PackageList,
    pub search_results: Vec<String>,
    pub searching: bool,
}

impl Screen {
    /// The opening screen: target selection, nothing scanned.
    pub fn new() -> (s: Screen)
        ensures
            s.step == AppStep::SelectTarget,
            s.packages.menu@.len() == 0,
            s.packages.terminal@.len() == 0,
            s.packages.flatpak@.len() == 0,
            s.packages.snap@.len() == 0,
            s.search_results@.len() == 0,
            !s.searching,
    {
        Screen {
            step: AppStep::SelectTarget,
            packages: PackageList {
                menu: Vec::new(),
                terminal: Vec::new(),
                flatpak: Vec::new(),
                snap: Vec::new(),
            },
            search_results: Vec::new(),
            searching: false,
        }
    }

    /// Takes in a finished background task: a scan leads to the review with
    /// its packages; a generation to the done step with the script's path, or
    /// to the error step with the message; a search hands over its results
    /// and ends the searching.
    pub fn receive(&mut self, result: BgResult)
        ensures
            match result {
                BgResult::ScanDone(list) => {
                    &&& final(self).packages == list
                    &&& final(self).step == AppStep::Review
                    &&& final(self).search_results == old(self).search_results
                    &&& final(self).searching == old(self).searching
                },
                BgResult::GenerateDone(Ok(path)) => {
                    &&& final(self).step == AppStep::Done(path)
                    &&& final(self).packages == old(self).packages
                    &&& final(self).search_results == old(self).search_results
                    &&& final(self).searching == old(self).searching
                },
                BgResult::GenerateDone(Err(e)) => {
                    &&& final(self).step == AppStep::Error(e)
                    &&& final(self).packages == old(self).packages
                    &&& final(self).search_results == old(self).search_results
                    &&& final(self).searching == old(self).searching
                },
                BgResult::SearchDone(results) => {
                    &&& final(self).search_results == results
                    &&& !final(self).searching
                    &&& final(self).step == old(self).step
                    &&& final(self).packages == old(self).packages
                },
            },
    {
        match result {
            BgResult::ScanDone(list) => {
                self.packages = list;
                self.step = AppStep::Review;
            },
            BgResult::GenerateDone(Ok(path)) => {
                self.step = AppStep::Done(path);
            },
            BgResult::GenerateDone(Err(e)) => {
                self.step = AppStep::Error(e);
            },
            BgResult::SearchDone(results) => {
                self.search_results = results;
                self.searching = false;
            },
        }
    }
}

} // verus!
