//! Choosing packages in the review screen and collecting them for the script.

use vstd::prelude::*;

use crate::desktop::first_of_each_name;
use crate::resolver::{Resolution, ResolutionModel};
use crate::scanner::{model_names, package_views, Package, PackageList, PackageModel, Source};
use crate::text::string_views;

verus! {

/// The four tabs of the review screen.
#[derive(Debug, Clone, Copy, PartialEq, Eq, Structural)]
pub enum Tab {
    MenuApps,
    TerminalApps,
    FlatpakApps,
    SnapApps,
}

/// The packages of one tab.
pub open spec fn tab_packages(list: PackageList, tab: Tab) -> Seq<Package> {
    match tab {
        Tab::MenuApps => list.menu@,
        Tab::TerminalApps => list.terminal@,
        Tab::FlatpakApps => list.flatpak@,
        Tab::SnapApps => list.snap@,
    }
}

/// All packages, tab after tab.
pub open spec fn all_of(list: PackageList) -> Seq<Package> {
    list.menu@ + list.terminal@ + list.flatpak@ + list.snap@
}

pub open spec fn is_selected() -> spec_fn(PackageModel) -> bool {
    |p: PackageModel| p.selected
}

/// How many packages are selected.
pub open spec fn count_selected(ps: Seq<Package>) -> nat {
    package_views(ps).filter(is_selected()).len()
}

fn count_selected_in(ps: &Vec<Package>) -> (r: usize)
    ensures
        r == count_selected(ps@),
{
    let ghost s = package_views(ps@);
    let mut n: usize = 0;
    let mut i: usize = 0;
    assert(s.take(0).filter(is_selected()) =~= Seq::<PackageModel>::empty()) by {
        reveal(Seq::filter);
    }
    while i < ps.len()
        invariant
            s == package_views(ps@),
            i <= ps@.len(),
            n == s.take(i as int).filter(is_selected()).len(),
            n <= i,
        decreases ps@.len() - i,
    {
        assert(s.take(i + 1) =~= s.take(i as int).push(s[i as int]));
        proof {
            s.take(i as int).lemma_filter_push(s[i as int], is_selected());
        }
        if ps[i].selected {
            n = n + 1;
        }
        i = i + 1;
    }
    assert(s.take(i as int) =~= s);
    n
}

/// A package with its selection set to `selected`.
pub open spec fn with_selection(p: PackageModel, selected: bool) -> PackageModel {
    PackageModel { selected, ..p }
}

fn set_all_selected(ps: &mut Vec<Package>, selected: bool)
    ensures
        package_views(final(ps)@) == package_views(old(ps)@).map_values(
            |p: PackageModel| with_selection(p, selected),
        ),
{
    let ghost s = package_views(ps@);
    let mut i: usize = 0;
    while i < ps.len()
        invariant
            s == package_views(old(ps)@),
            ps@.len() == s.len(),
            i <= ps@.len(),
            forall|j: int|
                0 <= j < i ==> (#[trigger] package_views(ps@)[j]) == with_selection(s[j], selected),
            forall|j: int| i <= j < ps@.len() ==> (#[trigger] package_views(ps@)[j]) == s[j],
        decreases ps@.len() - i,
    {
        let ghost prev = ps@;
        let mut p = ps.remove(i);
        p.selected = selected;
        let ghost pv = p;
        assert(package_views(prev)[i as int] == s[i as int]);
        assert(prev[i as int]@ == s[i as int]);
        assert(pv@ == with_selection(s[i as int], selected));
        ps.insert(i, p);
        assert(ps@ =~= prev.update(i as int, pv));
        assert(package_views(ps@) =~= package_views(prev).update(i as int, pv@));
        i = i + 1;
    }
    assert(package_views(ps@) =~= s.map_values(|p: PackageModel| with_selection(p, selected)));
}

fn has_name(names: &Vec<String>, name: &String) -> (r: bool)
    ensures
        r == string_views(names@).contains(name@),
{
    let mut j: usize = 0;
    while j < names.len()
        invariant
            j <= names@.len(),
            forall|k: int| 0 <= k < j ==> string_views(names@)[k] != name@,
        decreases names@.len() - j,
    {
        if names[j] == *name {
            assert(string_views(names@)[j as int] == name@);
            return true;
        }
        j = j + 1;
    }
    false
}

/// A package collected for the install script.
#[derive(Debug, Clone)]
pub struct ResolvedPackage {
    pub display_name: String,
    pub resolution: Resolution,
}

/// What a collected package holds.
pub struct ResolvedModel {
    pub display_name: Seq<char>,
    pub resolution: ResolutionModel,
}

impl View for ResolvedPackage {
    type V = ResolvedModel;

    open spec fn view(&self) -> ResolvedModel {
        ResolvedModel { display_name: self.display_name@, resolution: self.resolution@ }
    }
}

/// A package as collected: its display name and its resolution, unresolved
/// when it has none.
pub open spec fn collected(p: PackageModel) -> ResolvedModel {
    ResolvedModel {
        display_name: p.display_name,
        resolution: match p.resolution {
            Some(r) => r,
            None => ResolutionModel::Unresolved,
        },
    }
}

/// The packages for the script: the selected ones, tab after tab, each name
/// once (its first selected package).
pub open spec fn spec_selected_for_generation(list: PackageList) -> Seq<ResolvedModel> {
    first_of_each_name(package_views(all_of(list)).filter(is_selected())).map_values(
        |p: PackageModel| collected(p),
    )
}

impl PackageList {
    /// All packages, tab after tab.
    pub fn all_packages(&self) -> (r: Vec<&Package>)
        ensures
            r@.map_values(|p: &Package| *p) == all_of(*self),
    {
        let mut r: Vec<&Package> = Vec::new();
        let mut i: usize = 0;
        while i < self.menu.len()
            invariant
                i <= self.menu@.len(),
                r@.map_values(|p: &Package| *p) == self.menu@.take(i as int),
            decreases self.menu@.len() - i,
        {
            let ghost before = r@.map_values(|p: &Package| *p);
            r.push(&self.menu[i]);
            assert(r@.map_values(|p: &Package| *p) =~= before.push(self.menu@[i as int]));
            i = i + 1;
            assert(r@.map_values(|p: &Package| *p) =~= self.menu@.take(i as int));
        }
        assert(self.menu@.take(i as int) =~= self.menu@);
        let ghost a = self.menu@;
        i = 0;
        while i < self.terminal.len()
            invariant
                i <= self.terminal@.len(),
                a == self.menu@,
                r@.map_values(|p: &Package| *p) == a + self.terminal@.take(i as int),
            decreases self.terminal@.len() - i,
        {
            let ghost before = r@.map_values(|p: &Package| *p);
            r.push(&self.terminal[i]);
            assert(r@.map_values(|p: &Package| *p) =~= before.push(self.terminal@[i as int]));
            i = i + 1;
            assert(r@.map_values(|p: &Package| *p) =~= a + self.terminal@.take(i as int));
        }
        assert(self.terminal@.take(i as int) =~= self.terminal@);
        let ghost b = a + self.terminal@;
        i = 0;
        while i < self.flatpak.len()
            invariant
                i <= self.flatpak@.len(),
                b == self.menu@ + self.terminal@,
                r@.map_values(|p: &Package| *p) == b + self.flatpak@.take(i as int),
            decreases self.flatpak@.len() - i,
        {
            let ghost before = r@.map_values(|p: &Package| *p);
            r.push(&self.flatpak[i]);
            assert(r@.map_values(|p: &Package| *p) =~= before.push(self.flatpak@[i as int]));
            i = i + 1;
            assert(r@.map_values(|p: &Package| *p) =~= b + self.flatpak@.take(i as int));
        }
        assert(self.flatpak@.take(i as int) =~= self.flatpak@);
        let ghost c = b + self.flatpak@;
        i = 0;
        while i < self.snap.len()
            invariant
                i <= self.snap@.len(),
                c == self.menu@ + self.terminal@ + self.flatpak@,
                r@.map_values(|p: &Package| *p) == c + self.snap@.take(i as int),
            decreases self.snap@.len() - i,
        {
            let ghost before = r@.map_values(|p: &Package| *p);
            r.push(&self.snap[i]);
            assert(r@.map_values(|p: &Package| *p) =~= before.push(self.snap@[i as int]));
            i = i + 1;
            assert(r@.map_values(|p: &Package| *p) =~= c + self.snap@.take(i as int));
        }
        assert(self.snap@.take(i as int) =~= self.snap@);
        r
    }

    /// How many packages of a tab are selected.
    pub fn selected_in_tab(&self, tab: Tab) -> (r: usize)
        ensures
            r == count_selected(tab_packages(*self, tab)),
    {
        match tab {
            Tab::MenuApps => count_selected_in(&self.menu),
            Tab::TerminalApps => count_selected_in(&self.terminal),
            Tab::FlatpakApps => count_selected_in(&self.flatpak),
            Tab::SnapApps => count_selected_in(&self.snap),
        }
    }

    /// How many packages are selected in all tabs.
    pub fn total_selected(&self) -> (r: usize)
        requires
            self.menu@.len() + self.terminal@.len() + self.flatpak@.len() + self.snap@.len()
                <= usize::MAX,
        ensures
            r == count_selected(all_of(*self)),
    {
        let a = count_selected_in(&self.menu);
        let b = count_selected_in(&self.terminal);
        let c = count_selected_in(&self.flatpak);
        let d = count_selected_in(&self.snap);
        proof {
            let f = is_selected();
            let m = package_views(self.menu@);
            let t = package_views(self.terminal@);
            let fl = package_views(self.flatpak@);
            let sn = package_views(self.snap@);
            assert(package_views(all_of(*self)) =~= m + t + fl + sn);
            Seq::filter_distributes_over_add(m + t + fl, sn, f);
            Seq::filter_distributes_over_add(m + t, fl, f);
            Seq::filter_distributes_over_add(m, t, f);
            m.lemma_filter_len(f);
            t.lemma_filter_len(f);
            fl.lemma_filter_len(f);
            sn.lemma_filter_len(f);
        }
        a + b + c + d
    }

    /// Selects or deselects every package of a tab; the other tabs stay as
    /// they are.
    pub fn set_selected_for_tab(&mut self, tab: Tab, selected: bool)
        ensures
            package_views(tab_packages(*final(self), tab)) == package_views(
                tab_packages(*old(self), tab),
            ).map_values(|p: PackageModel| with_selection(p, selected)),
            forall|t: Tab| t != tab ==> tab_packages(*final(self), t) == tab_packages(*old(self), t),
    {
        match tab {
            Tab::MenuApps => set_all_selected(&mut self.menu, selected),
            Tab::TerminalApps => set_all_selected(&mut self.terminal, selected),
            Tab::FlatpakApps => set_all_selected(&mut self.flatpak, selected),
            Tab::SnapApps => set_all_selected(&mut self.snap, selected),
        }
    }

    /// The packages for the script: the selected ones, tab after tab, each
    /// name once (its first selected package), unresolved when not resolved.
    pub fn selected_for_generation(&self) -> (r: Vec<ResolvedPackage>)
        ensures
            r@.map_values(|x: ResolvedPackage| x@) == spec_selected_for_generation(*self),
    {
        let all = self.all_packages();
        let ghost s = package_views(all_of(*self));
        let ghost f = is_selected();
        let mut seen: Vec<String> = Vec::new();
        let mut out: Vec<ResolvedPackage> = Vec::new();
        let mut i: usize = 0;
        assert(s.take(0).filter(f) =~= Seq::<PackageModel>::empty()) by {
            reveal(Seq::filter);
        }
        assert(first_of_each_name(Seq::<PackageModel>::empty()) =~= Seq::<PackageModel>::empty());
        assert(string_views(seen@) =~= Seq::<Seq<char>>::empty());
        assert(out@.map_values(|x: ResolvedPackage| x@) =~= Seq::<ResolvedModel>::empty());
        while i < all.len()
            invariant
                all@.map_values(|p: &Package| *p) == all_of(*self),
                s == package_views(all_of(*self)),
                f == is_selected(),
                i <= all@.len(),
                string_views(seen@) == model_names(first_of_each_name(s.take(i as int).filter(f))),
                out@.map_values(|x: ResolvedPackage| x@) == first_of_each_name(
                    s.take(i as int).filter(f),
                ).map_values(|p: PackageModel| collected(p)),
            decreases all@.len() - i,
        {
            let p: &Package = all[i];
            assert(all@.map_values(|p: &Package| *p)[i as int] == *p);
            assert(p@ == s[i as int]);
            assert(s.take(i + 1) =~= s.take(i as int).push(p@));
            proof {
                s.take(i as int).lemma_filter_push(p@, f);
            }
            let ghost kept = s.take(i as int).filter(f);
            if p.selected {
                assert(kept.push(p@).drop_last() =~= kept);
                let found = has_name(&seen, &p.name);
                if !found {
                    let ghost before_seen = string_views(seen@);
                    let ghost before_out = out@.map_values(|x: ResolvedPackage| x@);
                    seen.push(p.name.clone());
                    let resolution = match &p.resolution {
                        Some(r) => r.duplicate(),
                        None => Resolution::Unresolved,
                    };
                    let item = ResolvedPackage { display_name: p.display_name.clone(), resolution };
                    assert(item@ == collected(p@));
                    out.push(item);
                    assert(string_views(seen@) =~= before_seen.push(p.name@));
                    assert(out@.map_values(|x: ResolvedPackage| x@) =~= before_out.push(collected(p@)));
                    assert(model_names(first_of_each_name(kept).push(p@)) =~= model_names(
                        first_of_each_name(kept),
                    ).push(p@.name));
                    assert(first_of_each_name(kept).push(p@).map_values(|q: PackageModel| collected(q)) =~= first_of_each_name(kept).map_values(|q: PackageModel| collected(q)).push(collected(p@)));
                }
            }
            i = i + 1;
        }
        assert(s.take(i as int) =~= s);
        out
    }
}

/// The badge shown next to a package in the review list.
pub open spec fn spec_resolution_badge(p: PackageModel) -> Option<Seq<char>> {
    match p.resolution {
        Some(ResolutionModel::Native(name)) => if name != p.name {
            Some("\u{2192} "@ + name)
        } else {
            None
        },
        Some(ResolutionModel::Flatpak(_)) => Some("(Flatpak)"@),
        Some(ResolutionModel::Snap(_, classic)) => if classic {
            Some("(Snap \u{b7} classic)"@)
        } else {
            Some("(Snap)"@)
        },
        Some(ResolutionModel::Unresolved) => Some("\u{26a0} not available on target"@),
        None => None,
    }
}

/// The resolution badge for a package: the native name when it differs,
/// the packaging format, or a warning that the target lacks it.
pub fn resolution_badge(p: &Package) -> (r: Option<String>)
    ensures
        r.deep_view() == spec_resolution_badge(p@),
{
    match &p.resolution {
        Some(Resolution::Native(name)) => {
            if *name != p.name {
                Some(String::from_str("\u{2192} ").concat(name.as_str()))
            } else {
                None
            }
        },
        Some(Resolution::Flatpak(_)) => Some(String::from_str("(Flatpak)")),
        Some(Resolution::Snap { classic, .. }) => {
            if *classic {
                Some(String::from_str("(Snap \u{b7} classic)"))
            } else {
                Some(String::from_str("(Snap)"))
            }
        },
        Some(Resolution::Unresolved) => Some(String::from_str("\u{26a0} not available on target")),
        None => None,
    }
}

/// The package added from a search result: a selected native package of
/// that name, version `latest`.
pub open spec fn spec_search_result_package(name: Seq<char>) -> PackageModel {
    PackageModel {
        name,
        display_name: name,
        version: "latest"@,
        source: Source::Apt,
        flatpak_id: None,
        config_path: None,
        resolution: Some(ResolutionModel::Native(name)),
        selected: true,
    }
}

pub fn search_result_package(name: &str) -> (r: Package)
    ensures
        r@ == spec_search_result_package(name@),
{
    Package {
        name: name.to_owned(),
        display_name: name.to_owned(),
        version: String::from_str("latest"),
        source: Source::Apt,
        flatpak_id: None,
        config_path: None,
        resolution: Some(Resolution::Native(name.to_owned())),
        selected: true,
    }
}

} // verus!
