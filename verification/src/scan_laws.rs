//! Properties of the scanned inventory: what each tab holds and how it is
//! ordered.

use vstd::prelude::*;

use crate::desktop::{
    candidate_package, first_of_each_name, menu_entries, menu_keeps, spec_first_owner,
    MenuCandidate,
};
use crate::laws::lemma_first_of_each_name;
use crate::order::{is_display_sort_of, sorted_by_display, with_display};
use crate::resolver::ResolutionModel;
use crate::scanner::{
    has_listed_prefix, desktop_blacklist, is_scan_of, listing_entry, listing_packages,
    manual_source, model_names, noise_prefixes, package_blacklist, package_views, skip_lines,
    header_lines, spec_flatpak_ids, spec_host_packages, spec_is_snap_base, terminal_keeps, Distro,
    HostListing, Listing, PackageList, PackageModel, Source,
};
use crate::text::lines;

verus! {

/// Every package of a tab sorted by display name is one of the packages
/// that were sorted.
pub proof fn lemma_display_sort_members(r: Seq<PackageModel>, s: Seq<PackageModel>)
    requires
        is_display_sort_of(r, s),
    ensures
        forall|i: int| 0 <= i < r.len() ==> s.contains(#[trigger] r[i]),
{
    assert forall|i: int| 0 <= i < r.len() implies s.contains(#[trigger] r[i]) by {
        let k = r[i].display_name;
        r.lemma_filter_contains(with_display(k), i);
        assert(r.filter(with_display(k)) == s.filter(with_display(k)));
        s.lemma_filter_contains_rev(with_display(k), r[i]);
    }
}

proof fn lemma_filter_keeps_pair<A>(r: Seq<A>, p: spec_fn(A) -> bool, i: int, j: int)
    requires
        0 <= i < j < r.len(),
        p(r[i]),
        p(r[j]),
    ensures
        exists|a: int, b: int|
            0 <= a < b < r.filter(p).len() && r.filter(p)[a] == r[i] && r.filter(p)[b] == r[j],
    decreases r.len(),
{
    let d = r.drop_last();
    assert(r =~= d.push(r.last()));
    d.lemma_filter_push(r.last(), p);
    if j == r.len() - 1 {
        assert(d[i] == r[i]);
        d.lemma_filter_contains(p, i);
        let a = choose|a: int| 0 <= a < d.filter(p).len() && d.filter(p)[a] == r[i];
        let b = d.filter(p).len() as int;
        assert(r.filter(p)[a] == r[i]);
        assert(r.filter(p)[b] == r[j]);
    } else {
        assert(d[i] == r[i] && d[j] == r[j]);
        lemma_filter_keeps_pair(d, p, i, j);
        let (a, b) = choose|a: int, b: int|
            0 <= a < b < d.filter(p).len() && d.filter(p)[a] == r[i] && d.filter(p)[b] == r[j];
        assert(r.filter(p)[a] == r[i]);
        assert(r.filter(p)[b] == r[j]);
    }
}

/// Names are distinct in a sequence.
pub open spec fn distinct_names(s: Seq<PackageModel>) -> bool {
    forall|i: int, j: int| 0 <= i < j < s.len() ==> s[i].name != s[j].name
}

proof fn lemma_filter_distinct_names(s: Seq<PackageModel>, p: spec_fn(PackageModel) -> bool)
    requires
        distinct_names(s),
    ensures
        distinct_names(s.filter(p)),
    decreases s.len(),
{
    if s.len() > 0 {
        let d = s.drop_last();
        assert(s =~= d.push(s.last()));
        d.lemma_filter_push(s.last(), p);
        assert(distinct_names(d)) by {
            assert forall|i: int, j: int| 0 <= i < j < d.len() implies d[i].name != d[j].name by {
                assert(d[i] == s[i] && d[j] == s[j]);
            }
        }
        lemma_filter_distinct_names(d, p);
        if p(s.last()) {
            let f = d.filter(p);
            let g = f.push(s.last());
            assert forall|i: int, j: int| 0 <= i < j < g.len() implies g[i].name != g[j].name by {
                if j == f.len() {
                    d.lemma_filter_contains_rev(p, f[i]);
                    let k = choose|k: int| 0 <= k < d.len() && d[k] == f[i];
                    assert(s[k] == d[k]);
                    assert(s[s.len() - 1] == s.last());
                } else {
                    assert(g[i] == f[i] && g[j] == f[j]);
                }
            }
        }
    }
}

/// Sorting by display name keeps names distinct.
pub proof fn lemma_display_sort_distinct_names(r: Seq<PackageModel>, s: Seq<PackageModel>)
    requires
        is_display_sort_of(r, s),
        distinct_names(s),
    ensures
        distinct_names(r),
{
    lemma_display_sort_members(r, s);
    assert forall|i: int, j: int| 0 <= i < j < r.len() implies r[i].name != r[j].name by {
        if r[i].name == r[j].name {
            if r[i].display_name == r[j].display_name {
                let k = r[i].display_name;
                lemma_filter_keeps_pair(r, with_display(k), i, j);
                let (a, b) = choose|a: int, b: int|
                    0 <= a < b < r.filter(with_display(k)).len() && r.filter(with_display(k))[a]
                        == r[i] && r.filter(with_display(k))[b] == r[j];
                assert(r.filter(with_display(k)) == s.filter(with_display(k)));
                lemma_filter_distinct_names(s, with_display(k));
            } else {
                assert(s.contains(r[i]));
                assert(s.contains(r[j]));
                let a = choose|a: int| 0 <= a < s.len() && s[a] == r[i];
                let b = choose|b: int| 0 <= b < s.len() && s[b] == r[j];
                assert(a != b);
                if a < b {
                    assert(s[a].name != s[b].name);
                } else {
                    assert(s[b].name != s[a].name);
                }
            }
        }
    }
}

proof fn lemma_names_covered(u: Seq<PackageModel>)
    ensures
        forall|k: int| 0 <= k < u.len() ==> model_names(first_of_each_name(u)).contains(#[trigger] u[k].name),
    decreases u.len(),
{
    if u.len() > 0 {
        let d = u.drop_last();
        lemma_names_covered(d);
        let fd = first_of_each_name(d);
        assert forall|k: int| 0 <= k < u.len() implies model_names(first_of_each_name(u)).contains(
            #[trigger] u[k].name,
        ) by {
            if k < d.len() {
                assert(u[k] == d[k]);
                assert(model_names(fd).contains(d[k].name));
                let m = choose|m: int| 0 <= m < model_names(fd).len() && model_names(fd)[m] == d[k].name;
                if !model_names(fd).contains(u.last().name) {
                    assert(first_of_each_name(u) == fd.push(u.last()));
                    assert(model_names(first_of_each_name(u))[m] == model_names(fd)[m]);
                }
            } else {
                if !model_names(fd).contains(u.last().name) {
                    let e = fd.push(u.last());
                    assert(model_names(e)[fd.len() as int] == u.last().name);
                }
            }
        }
    }
}

/// Of the entries with one name, keeping the first means that when an entry
/// of the earlier part has that name, the entry kept is from the earlier
/// part.
pub proof fn lemma_earlier_entry_wins(a: Seq<PackageModel>, b: Seq<PackageModel>)
    ensures
        forall|i: int|
            0 <= i < first_of_each_name(a + b).len() && model_names(a).contains(
                #[trigger] first_of_each_name(a + b)[i].name,
            ) ==> a.contains(first_of_each_name(a + b)[i]),
    decreases b.len(),
{
    if b.len() == 0 {
        assert(a + b =~= a);
        lemma_first_of_each_name(a);
    } else {
        let bd = b.drop_last();
        lemma_earlier_entry_wins(a, bd);
        assert((a + b).drop_last() =~= a + bd);
        assert((a + b).last() == b.last());
        let prev = first_of_each_name(a + bd);
        assert forall|i: int|
            0 <= i < first_of_each_name(a + b).len() && model_names(a).contains(
                #[trigger] first_of_each_name(a + b)[i].name,
            ) implies a.contains(first_of_each_name(a + b)[i]) by {
            if i < prev.len() {
                assert(first_of_each_name(a + b)[i] == prev[i]);
            } else {
                // the pushed entry: its name was in `a`, so it was covered before
                assert(first_of_each_name(a + b) == prev.push(b.last()));
                let m = choose|m: int| 0 <= m < model_names(a).len() && model_names(a)[m] == b.last().name;
                lemma_names_covered(a + bd);
                assert((a + bd)[m] == a[m]);
                assert(model_names(prev).contains((a + bd)[m].name));
            }
        }
    }
}

/// What the menu tab holds. Each package comes from a `.desktop` file whose
/// stem is not blacklisted: from the system directory as an apt package or
/// from the user's directory as a local one; none is a Flatpak app or a
/// blacklisted package; each starts unselected and unresolved. Where the
/// system directory has an entry with a package's name, the package is that
/// system entry. Names are distinct and the tab is sorted by display name.
pub proof fn lemma_menu_tab(
    system: Seq<MenuCandidate>,
    local: Seq<MenuCandidate>,
    ids: Seq<Seq<char>>,
    r: Seq<PackageModel>,
)
    requires
        is_display_sort_of(r, first_of_each_name(menu_entries(system, local).filter(menu_keeps(ids)))),
    ensures
        sorted_by_display(r),
        distinct_names(r),
        forall|i: int|
            0 <= i < r.len() ==> {
                &&& menu_keeps(ids)(#[trigger] r[i])
                &&& !r[i].selected
                &&& r[i].resolution is None
                &&& r[i].flatpak_id is None
                &&& (r[i].source == Source::Apt || r[i].source == Source::Local)
            },
        forall|i: int|
            0 <= i < r.len() && (#[trigger] r[i]).source == Source::Apt ==> exists|c: MenuCandidate|
                system.contains(c) && !has_listed_prefix(c.stem@, desktop_blacklist())
                    && #[trigger] candidate_package(false)(c) == Some(r[i]),
        forall|i: int|
            0 <= i < r.len() && (#[trigger] r[i]).source == Source::Local ==> exists|c: MenuCandidate|
                local.contains(c) && !has_listed_prefix(c.stem@, desktop_blacklist())
                    && #[trigger] candidate_package(true)(c) == Some(r[i]),
        forall|i: int|
            0 <= i < r.len() && model_names(system.filter_map(candidate_package(false))).contains(
                (#[trigger] r[i]).name,
            ) ==> r[i].source == Source::Apt,
{
    let f = menu_keeps(ids);
    let sa = system.filter_map(candidate_package(false));
    let lo = local.filter_map(candidate_package(true));
    let e = menu_entries(system, local);
    let kept = e.filter(f);
    let fe = first_of_each_name(kept);
    lemma_first_of_each_name(kept);
    assert(distinct_names(fe));
    lemma_display_sort_distinct_names(r, fe);
    lemma_display_sort_members(r, fe);
    Seq::filter_distributes_over_add(sa, lo, f);
    assert(kept == sa.filter(f) + lo.filter(f));
    lemma_earlier_entry_wins(sa.filter(f), lo.filter(f));
    assert forall|i: int| 0 <= i < r.len() implies {
        &&& f(#[trigger] r[i])
        &&& !r[i].selected
        &&& r[i].resolution is None
        &&& r[i].flatpak_id is None
        &&& (r[i].source == Source::Apt || r[i].source == Source::Local)
        &&& (r[i].source == Source::Apt ==> exists|c: MenuCandidate|
            system.contains(c) && !has_listed_prefix(c.stem@, desktop_blacklist())
                && #[trigger] candidate_package(false)(c) == Some(r[i]))
        &&& (r[i].source == Source::Local ==> exists|c: MenuCandidate|
            local.contains(c) && !has_listed_prefix(c.stem@, desktop_blacklist())
                && #[trigger] candidate_package(true)(c) == Some(r[i]))
        &&& (model_names(sa).contains(r[i].name) ==> r[i].source == Source::Apt)
    } by {
        let x = r[i];
        assert(fe.contains(x));
        let k = choose|k: int| 0 <= k < fe.len() && fe[k] == x;
        assert(kept.contains(fe[k]));
        let m = choose|m: int| 0 <= m < kept.len() && kept[m] == x;
        e.lemma_filter_pred(f, m);
        e.lemma_filter_contains_rev(f, x);
        let n = choose|n: int| 0 <= n < e.len() && e[n] == x;
        if n < sa.len() {
            assert(sa.contains(x)) by {
                assert(sa[n] == e[n]);
            }
            system.lemma_filter_map_contains(candidate_package(false), x);
        } else {
            assert(lo.contains(x)) by {
                assert(lo[n - sa.len()] == e[n]);
            }
            local.lemma_filter_map_contains(candidate_package(true), x);
        }
        if model_names(sa).contains(x.name) {
            // the system entry of that name passes the same name-only filter
            let j = choose|j: int| 0 <= j < model_names(sa).len() && model_names(sa)[j] == x.name;
            assert(f(sa[j]) == f(x));
            sa.lemma_filter_contains(f, j);
            let q = choose|q: int| 0 <= q < sa.filter(f).len() && sa.filter(f)[q] == sa[j];
            assert(model_names(sa.filter(f))[q] == x.name);
            assert(fe[k] == first_of_each_name(sa.filter(f) + lo.filter(f))[k]);
            assert(sa.filter(f).contains(x));
            sa.lemma_filter_contains_rev(f, x);
            system.lemma_filter_map_contains(candidate_package(false), x);
        }
    }
}

/// The source that the host's package tool gives its packages.
pub open spec fn host_source(distro: Distro) -> Source {
    match distro {
        Distro::Fedora => Source::Dnf,
        Distro::Arch => Source::Pacman,
        Distro::OpenSuse => Source::Zypper,
        _ => Source::Apt,
    }
}

proof fn lemma_listing_member(
    fmt: Listing,
    out: Seq<char>,
    versions: Map<Seq<char>, Seq<char>>,
    has_home: bool,
    with_config: Seq<Seq<char>>,
    x: PackageModel,
)
    requires
        listing_packages(fmt, out, versions, has_home, with_config).contains(x),
    ensures
        !x.selected,
        fmt is FlatpakApps ==> x.source == Source::Flatpak && x.flatpak_id == Some(x.name)
            && x.resolution is None,
        fmt is SnapList ==> x.source == Source::Snap && (x.resolution matches Some(
            ResolutionModel::Snap(n, _),
        ) && n == x.name) && !spec_is_snap_base(x.name),
        fmt is AptManual ==> x.source == Source::Apt && x.resolution is None,
        fmt is PacmanExplicit ==> x.source == Source::Pacman && x.resolution is None,
        fmt is DnfUserInstalled ==> x.source == Source::Dnf && x.resolution is None,
        fmt is ZypperInstalled ==> x.source == Source::Zypper && x.resolution is None,
{
    let f = listing_entry(fmt, versions, has_home, with_config);
    let ls = skip_lines(lines(out), header_lines(fmt));
    ls.lemma_filter_map_contains(f, x);
    let t = choose|t: Seq<char>| ls.contains(t) && f(t) == Some(x);
    assert(f(t) == Some(x));
}

proof fn lemma_filter_member<A>(s: Seq<A>, p: spec_fn(A) -> bool, i: int)
    requires
        0 <= i < s.filter(p).len(),
    ensures
        p(s.filter(p)[i]),
        s.contains(s.filter(p)[i]),
{
    s.lemma_filter_pred(p, i);
    assert(s.filter(p).contains(s.filter(p)[i]));
    s.lemma_filter_contains_rev(p, s.filter(p)[i]);
}

/// What a scan gives. Every package starts unselected. The Flatpak tab holds
/// Flatpak apps under their IDs, the snap tab snaps (no base snaps) resolved
/// as snaps, both sorted by display name; the terminal tab holds packages of
/// the host's package tool, none for an unknown host, none that the menu or
/// Flatpak tab names, no system noise and nothing blacklisted; menu,
/// terminal and Flatpak packages start unresolved; the menu tab is as
/// `lemma_menu_tab` states.
pub proof fn lemma_scan(
    r: PackageList,
    distro: Distro,
    system: Seq<MenuCandidate>,
    local: Seq<MenuCandidate>,
    flatpak_out: Option<Seq<char>>,
    has_home: bool,
    host: HostListing,
    snap_out: Option<Seq<char>>,
    snap_with_config: Seq<Seq<char>>,
)
    requires
        is_scan_of(r, distro, system, local, flatpak_out, has_home, host, snap_out, snap_with_config),
    ensures
        sorted_by_display(package_views(r.menu@)),
        sorted_by_display(package_views(r.flatpak@)),
        sorted_by_display(package_views(r.snap@)),
        distinct_names(package_views(r.menu@)),
        distro == Distro::Unknown ==> r.terminal@.len() == 0,
        forall|i: int|
            0 <= i < r.menu@.len() ==> {
                &&& menu_keeps(spec_flatpak_ids(package_views(r.flatpak@)))(#[trigger] r.menu@[i]@)
                &&& !r.menu@[i].selected
                &&& r.menu@[i]@.resolution is None
                &&& (r.menu@[i].source == Source::Apt || r.menu@[i].source == Source::Local)
            },
        forall|i: int|
            0 <= i < r.flatpak@.len() ==> {
                &&& !(#[trigger] r.flatpak@[i]).selected
                &&& r.flatpak@[i].source == Source::Flatpak
                &&& r.flatpak@[i]@.flatpak_id == Some(r.flatpak@[i]@.name)
                &&& r.flatpak@[i]@.resolution is None
            },
        forall|i: int|
            0 <= i < r.snap@.len() ==> {
                &&& !(#[trigger] r.snap@[i]).selected
                &&& r.snap@[i].source == Source::Snap
                &&& r.snap@[i]@.resolution matches Some(ResolutionModel::Snap(n, _)) && n == r.snap@[i]@.name
                &&& !spec_is_snap_base(r.snap@[i]@.name)
            },
        forall|i: int|
            0 <= i < r.terminal@.len() ==> {
                &&& !(#[trigger] r.terminal@[i]).selected
                &&& r.terminal@[i].source == host_source(distro)
                &&& r.terminal@[i]@.resolution is None
                &&& !model_names(package_views(r.menu@)).contains(r.terminal@[i]@.name)
                &&& !model_names(package_views(r.flatpak@)).contains(r.terminal@[i]@.name)
                &&& !has_listed_prefix(r.terminal@[i]@.name, noise_prefixes())
                &&& !has_listed_prefix(r.terminal@[i]@.name, package_blacklist())
            },
{
    let m = package_views(r.menu@);
    let fl = package_views(r.flatpak@);
    let sn = package_views(r.snap@);
    let te = package_views(r.terminal@);
    lemma_menu_tab(system, local, spec_flatpak_ids(fl), m);
    assert forall|i: int| 0 <= i < r.menu@.len() implies {
        &&& menu_keeps(spec_flatpak_ids(fl))(#[trigger] r.menu@[i]@)
        &&& !r.menu@[i].selected
        &&& r.menu@[i]@.resolution is None
        &&& (r.menu@[i].source == Source::Apt || r.menu@[i].source == Source::Local)
    } by {
        assert(m[i] == r.menu@[i]@);
    }
    lemma_display_sort_members(fl, crate::scanner::spec_flatpak_listing(flatpak_out, has_home));
    assert forall|i: int| 0 <= i < r.flatpak@.len() implies {
        &&& !(#[trigger] r.flatpak@[i]).selected
        &&& r.flatpak@[i].source == Source::Flatpak
        &&& r.flatpak@[i]@.flatpak_id == Some(r.flatpak@[i]@.name)
        &&& r.flatpak@[i]@.resolution is None
    } by {
        assert(fl[i] == r.flatpak@[i]@);
        match flatpak_out {
            Some(o) => {
                lemma_listing_member(Listing::FlatpakApps, o, Map::empty(), has_home, Seq::empty(), fl[i]);
            },
            None => {
                assert(Seq::<PackageModel>::empty().contains(fl[i]));
            },
        }
    }
    lemma_display_sort_members(sn, crate::scanner::spec_snap_listing(snap_out, snap_with_config));
    assert forall|i: int| 0 <= i < r.snap@.len() implies {
        &&& !(#[trigger] r.snap@[i]).selected
        &&& r.snap@[i].source == Source::Snap
        &&& r.snap@[i]@.resolution matches Some(ResolutionModel::Snap(n, _)) && n == r.snap@[i]@.name
        &&& !spec_is_snap_base(r.snap@[i]@.name)
    } by {
        assert(sn[i] == r.snap@[i]@);
        match snap_out {
            Some(o) => {
                lemma_listing_member(Listing::SnapList, o, Map::empty(), false, snap_with_config, sn[i]);
            },
            None => {
                assert(Seq::<PackageModel>::empty().contains(sn[i]));
            },
        }
    }
    let hp = spec_host_packages(distro, host);
    let tk = terminal_keeps(model_names(m), model_names(fl));
    assert(te == hp.filter(tk));
    if distro == Distro::Unknown {
        assert(hp =~= Seq::<PackageModel>::empty());
        assert(hp.filter(tk) =~= Seq::<PackageModel>::empty()) by {
            reveal(Seq::filter);
        }
        assert(te.len() == 0);
    }
    assert forall|i: int| 0 <= i < r.terminal@.len() implies {
        &&& !(#[trigger] r.terminal@[i]).selected
        &&& r.terminal@[i].source == host_source(distro)
        &&& r.terminal@[i]@.resolution is None
        &&& !model_names(m).contains(r.terminal@[i]@.name)
        &&& !model_names(fl).contains(r.terminal@[i]@.name)
        &&& !has_listed_prefix(r.terminal@[i]@.name, noise_prefixes())
        &&& !has_listed_prefix(r.terminal@[i]@.name, package_blacklist())
    } by {
        assert(te[i] == r.terminal@[i]@);
        lemma_filter_member(hp, tk, i);
        let x = te[i];
        match (distro, host) {
            (Distro::Debian, HostListing::Apt { status, manual }) => {
                lemma_listing_member(
                    Listing::AptManual,
                    manual@,
                    crate::scanner::spec_dpkg_version_map(status@),
                    false,
                    Seq::empty(),
                    x,
                );
            },
            (Distro::Fedora, HostListing::Dnf(out)) => {
                lemma_listing_member(Listing::DnfUserInstalled, out@, Map::empty(), false, Seq::empty(), x);
            },
            (Distro::Arch, HostListing::Pacman { installed, explicit }) => {
                lemma_listing_member(
                    Listing::PacmanExplicit,
                    explicit@,
                    crate::scanner::spec_pacman_version_map(installed@),
                    false,
                    Seq::empty(),
                    x,
                );
            },
            (Distro::OpenSuse, HostListing::Zypper(out)) => {
                lemma_listing_member(Listing::ZypperInstalled, out@, Map::empty(), false, Seq::empty(), x);
            },
            _ => {
                assert(hp =~= Seq::<PackageModel>::empty());
                assert(hp.contains(x));
            },
        }
    }
}

/// Asking dpkg path by path and stopping at the first answer that qualifies
/// gives the owner that all the answers together name: once an owner is
/// found among the first answers, the later ones cannot change it.
pub proof fn lemma_first_owner_prefix(all: Seq<Option<Seq<char>>>, k: int)
    requires
        0 <= k <= all.len(),
        spec_first_owner(all.take(k)) is Some,
    ensures
        spec_first_owner(all.take(k)) == spec_first_owner(all),
    decreases k,
{
    assert(all.take(k).len() > 0);
    assert(all.take(k)[0] == all[0]);
    let here = match all[0] {
        Some(out) => crate::desktop::spec_dpkg_owner(out),
        None => None,
    };
    if here is None {
        assert(all.take(k).drop_first() =~= all.drop_first().take(k - 1));
        lemma_first_owner_prefix(all.drop_first(), k - 1);
    }
}

} // verus!
