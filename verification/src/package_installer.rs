//! Package profiles offered for installation, what of them is missing, and
//! the decisions of an installation run.

use vstd::prelude::*;
use vstd::seq_lib::lemma_seq_contains_after_push;
use crate::text::{contains_string, string_views};

verus! {

broadcast use vstd::string::group_string_axioms;

/// Where the packages of an item can be installed from.
#[derive(Clone, Copy, Debug, PartialEq, Eq, Structural)]
pub enum PackageSource {
    Pacman,
    Unavailable,
}

/// One installable application: an id, the label shown to the user, the
/// distribution packages that make it up, and where they come from.
#[derive(Clone, Debug)]
pub struct PackageItem {
    pub id: String,
    pub label: String,
    pub packages: Vec<String>,
    pub source: PackageSource,
}

/// A package item as plain values.
#[verifier::ext_equal]
pub struct PackageItemView {
    pub id: Seq<char>,
    pub label: Seq<char>,
    pub packages: Seq<Seq<char>>,
    pub source: PackageSource,
}

impl View for PackageItem {
    type V = PackageItemView;

    open spec fn view(&self) -> PackageItemView {
        PackageItemView {
            id: self.id@,
            label: self.label@,
            packages: string_views(self.packages@),
            source: self.source,
        }
    }
}

/// A named group of package items offered together.
#[derive(Clone, Debug)]
pub struct PackageProfile {
    pub id: String,
    pub title: String,
    pub description: String,
    pub items: Vec<PackageItem>,
}

/// The views of a vector of package items.
pub open spec fn item_views(v: Seq<PackageItem>) -> Seq<PackageItemView> {
    v.map_values(|i: PackageItem| i@)
}

/// Every package of `item` is among the installed packages `installed`.
pub open spec fn item_installed(item: PackageItemView, installed: Seq<Seq<char>>) -> bool {
    forall|j: int| 0 <= j < item.packages.len() ==> installed.contains(#[trigger] item.packages[j])
}

/// Whether every package of `item` is installed; `installed` holds the names
/// of the packages that the system reports as installed.
pub fn is_installed(item: &PackageItem, installed: &Vec<String>) -> (r: bool)
    ensures
        r == item_installed(item@, string_views(installed@)),
{
    let mut j: usize = 0;
    while j < item.packages.len()
        invariant
            j <= item.packages.len(),
            forall|k: int|
                0 <= k < j ==> string_views(installed@).contains(
                    #[trigger] string_views(item.packages@)[k],
                ),
        decreases item.packages.len() - j,
    {
        if !contains_string(installed, &item.packages[j]) {
            assert(item@.packages[j as int] == item.packages@[j as int]@);
            assert(!string_views(installed@).contains(item@.packages[j as int]));
            return false;
        }
        j = j + 1;
    }
    true
}

/// The packages of `packages` that are not in `installed`, in order.
pub open spec fn uninstalled(packages: Seq<Seq<char>>, installed: Seq<Seq<char>>) -> Seq<
    Seq<char>,
>
    decreases packages.len(),
{
    if packages.len() == 0 {
        seq![]
    } else {
        let rest = uninstalled(packages.drop_last(), installed);
        if installed.contains(packages.last()) {
            rest
        } else {
            rest.push(packages.last())
        }
    }
}

/// What an item asks to install: its packages that are not installed when it
/// comes from Pacman, nothing otherwise.
pub open spec fn item_missing(item: PackageItemView, installed: Seq<Seq<char>>) -> Seq<Seq<char>> {
    if item.source == PackageSource::Pacman {
        uninstalled(item.packages, installed)
    } else {
        seq![]
    }
}

/// The packages that the items ask to install, item after item, repetitions
/// included.
pub open spec fn requested(items: Seq<PackageItemView>, installed: Seq<Seq<char>>) -> Seq<
    Seq<char>,
>
    decreases items.len(),
{
    if items.len() == 0 {
        seq![]
    } else {
        requested(items.drop_last(), installed) + item_missing(items.last(), installed)
    }
}

/// `s` with each element kept at its first occurrence only.
pub open spec fn dedup(s: Seq<Seq<char>>) -> Seq<Seq<char>>
    decreases s.len(),
{
    if s.len() == 0 {
        seq![]
    } else {
        let d = dedup(s.drop_last());
        if d.contains(s.last()) {
            d
        } else {
            d.push(s.last())
        }
    }
}

/// The packages to install for the selected items: those that Pacman items
/// need and that are not installed, each once, in the order of first need.
pub open spec fn missing(items: Seq<PackageItemView>, installed: Seq<Seq<char>>) -> Seq<Seq<char>> {
    dedup(requested(items, installed))
}

proof fn lemma_dedup_push(s: Seq<Seq<char>>, x: Seq<char>)
    ensures
        dedup(s.push(x)) == (if dedup(s).contains(x) {
            dedup(s)
        } else {
            dedup(s).push(x)
        }),
{
    assert(s.push(x).drop_last() =~= s);
}

/// The packages that must still be installed for the selected `items`, given
/// the names of the installed packages `installed`.
pub fn missing_packages(items: &Vec<PackageItem>, installed: &Vec<String>) -> (r: Vec<String>)
    ensures
        string_views(r@) == missing(item_views(items@), string_views(installed@)),
{
    let ghost inst = string_views(installed@);
    let ghost all = item_views(items@);
    let mut packages: Vec<String> = Vec::new();
    let mut i: usize = 0;
    while i < items.len()
        invariant
            i <= items.len(),
            inst == string_views(installed@),
            all == item_views(items@),
            string_views(packages@) == dedup(requested(all.take(i as int), inst)),
        decreases items.len() - i,
    {
        let item = &items[i];
        let ghost before = requested(all.take(i as int), inst);
        assert(all.take(i + 1).drop_last() =~= all.take(i as int));
        assert(all.take(i + 1).last() == item@);
        if item.source == PackageSource::Pacman {
            let mut j: usize = 0;
            while j < item.packages.len()
                invariant
                    j <= item.packages.len(),
                    inst == string_views(installed@),
                    *item == items@[i as int],
                    string_views(packages@) == dedup(
                        before + uninstalled(string_views(item.packages@).take(j as int), inst),
                    ),
                decreases item.packages.len() - j,
            {
                let package = &item.packages[j];
                let ghost pk = string_views(item.packages@);
                assert(pk.take(j + 1).drop_last() =~= pk.take(j as int));
                assert(pk.take(j + 1).last() == package@);
                let ghost prev = before + uninstalled(pk.take(j as int), inst);
                if !contains_string(installed, package) {
                    assert(before + uninstalled(pk.take(j + 1), inst) =~= prev.push(package@));
                    proof {
                        lemma_dedup_push(prev, package@);
                    }
                    if !contains_string(&packages, package) {
                        packages.push(package.clone());
                        assert(string_views(packages@) =~= dedup(prev).push(package@));
                    }
                } else {
                    assert(before + uninstalled(pk.take(j + 1), inst) =~= prev);
                }
                j = j + 1;
            }
            assert(string_views(item.packages@).take(item.packages.len() as int) =~= item@.packages);
        } else {
            assert(before + item_missing(item@, inst) =~= before);
        }
        i = i + 1;
    }
    assert(all.take(items.len() as int) =~= all);
    packages
}


proof fn lemma_dedup_contains(s: Seq<Seq<char>>, x: Seq<char>)
    ensures
        dedup(s).contains(x) <==> s.contains(x),
    decreases s.len(),
{
    if s.len() > 0 {
        let init = s.drop_last();
        lemma_dedup_contains(init, x);
        assert(s =~= init.push(s.last()));
        lemma_seq_contains_after_push(init, s.last(), x);
        lemma_seq_contains_after_push(dedup(init), s.last(), x);
    }
}

proof fn lemma_dedup_no_duplicates(s: Seq<Seq<char>>)
    ensures
        dedup(s).no_duplicates(),
    decreases s.len(),
{
    if s.len() > 0 {
        let d = dedup(s.drop_last());
        lemma_dedup_no_duplicates(s.drop_last());
        if !d.contains(s.last()) {
            let e = d.push(s.last());
            assert forall|i: int, j: int| 0 <= i < e.len() && 0 <= j < e.len() && i != j implies e[i]
                != e[j] by {
                if i < d.len() && j < d.len() {
                } else if i < d.len() {
                    assert(d.contains(d[i]));
                } else if j < d.len() {
                    assert(d.contains(d[j]));
                }
            }
        }
    }
}

proof fn lemma_uninstalled_contains(
    packages: Seq<Seq<char>>,
    installed: Seq<Seq<char>>,
    x: Seq<char>,
)
    ensures
        uninstalled(packages, installed).contains(x) <==> (packages.contains(x)
            && !installed.contains(x)),
    decreases packages.len(),
{
    if packages.len() > 0 {
        let init = packages.drop_last();
        lemma_uninstalled_contains(init, installed, x);
        assert(packages =~= init.push(packages.last()));
        lemma_seq_contains_after_push(init, packages.last(), x);
        lemma_seq_contains_after_push(uninstalled(init, installed), packages.last(), x);
    }
}

/// Whether some Pacman item among `items` has `p` among its packages.
pub open spec fn needed_by_pacman_item(items: Seq<PackageItemView>, p: Seq<char>) -> bool {
    exists|i: int|
        0 <= i < items.len() && (#[trigger] items[i]).source == PackageSource::Pacman
            && items[i].packages.contains(p)
}

proof fn lemma_requested_contains(
    items: Seq<PackageItemView>,
    installed: Seq<Seq<char>>,
    p: Seq<char>,
)
    ensures
        requested(items, installed).contains(p) <==> (!installed.contains(p)
            && needed_by_pacman_item(items, p)),
    decreases items.len(),
{
    if items.len() > 0 {
        let init = items.drop_last();
        let last = items.last();
        lemma_requested_contains(init, installed, p);
        let a = requested(init, installed);
        let b = item_missing(last, installed);
        if last.source == PackageSource::Pacman {
            lemma_uninstalled_contains(last.packages, installed, p);
        }
        if (a + b).contains(p) {
            let k = choose|k: int| 0 <= k < (a + b).len() && (a + b)[k] == p;
            if k < a.len() {
                assert(a[k] == p);
            } else {
                assert(b[k - a.len()] == p);
            }
        }
        if a.contains(p) {
            let k = choose|k: int| 0 <= k < a.len() && a[k] == p;
            assert((a + b)[k] == p);
        }
        if b.contains(p) {
            let k = choose|k: int| 0 <= k < b.len() && b[k] == p;
            assert((a + b)[a.len() + k] == p);
        }
        if needed_by_pacman_item(init, p) {
            let i = choose|i: int|
                0 <= i < init.len() && (#[trigger] init[i]).source == PackageSource::Pacman
                    && init[i].packages.contains(p);
            assert(items[i] == init[i]);
        }
        if needed_by_pacman_item(items, p) {
            let i = choose|i: int|
                0 <= i < items.len() && (#[trigger] items[i]).source == PackageSource::Pacman
                    && items[i].packages.contains(p);
            if i < init.len() {
                assert(init[i] == items[i]);
            }
        }
    }
}

/// No package is asked for twice.
pub proof fn lemma_missing_no_duplicates(items: Seq<PackageItemView>, installed: Seq<Seq<char>>)
    ensures
        missing(items, installed).no_duplicates(),
{
    lemma_dedup_no_duplicates(requested(items, installed));
}

/// A package is asked for exactly when it is not installed and some selected
/// Pacman item needs it; packages of items from other sources never are.
pub proof fn lemma_missing_members(
    items: Seq<PackageItemView>,
    installed: Seq<Seq<char>>,
    p: Seq<char>,
)
    ensures
        missing(items, installed).contains(p) <==> (!installed.contains(p)
            && needed_by_pacman_item(items, p)),
{
    lemma_dedup_contains(requested(items, installed), p);
    lemma_requested_contains(items, installed, p);
}

/// Nothing is missing exactly when every selected Pacman item counts as
/// installed.
pub proof fn lemma_nothing_missing(items: Seq<PackageItemView>, installed: Seq<Seq<char>>)
    ensures
        missing(items, installed).len() == 0 <==> (forall|i: int|
            0 <= i < items.len() && (#[trigger] items[i]).source == PackageSource::Pacman
                ==> item_installed(items[i], installed)),
{
    let m = missing(items, installed);
    if m.len() == 0 {
        assert forall|i: int|
            0 <= i < items.len() && (#[trigger] items[i]).source == PackageSource::Pacman
                implies item_installed(items[i], installed) by {
            assert forall|j: int| 0 <= j < items[i].packages.len() implies installed.contains(
                #[trigger] items[i].packages[j],
            ) by {
                let p = items[i].packages[j];
                assert(items[i].packages.contains(p));
                lemma_missing_members(items, installed, p);
                if !installed.contains(p) {
                    assert(needed_by_pacman_item(items, p));
                    assert(m.contains(p));
                }
            }
        }
    } else {
        let p = m[0];
        assert(m.contains(p));
        lemma_missing_members(items, installed, p);
        let i = choose|i: int|
            0 <= i < items.len() && (#[trigger] items[i]).source == PackageSource::Pacman
                && items[i].packages.contains(p);
        let j = choose|j: int| 0 <= j < items[i].packages.len() && items[i].packages[j] == p;
        assert(!installed.contains(items[i].packages[j]));
    }
}


/// The view of a package item with the given fields.
pub open spec fn item_view(
    id: Seq<char>,
    label: Seq<char>,
    packages: Seq<Seq<char>>,
    source: PackageSource,
) -> PackageItemView {
    PackageItemView { id, label, packages, source }
}

fn make_item(id: &str, label: &str, packages: Vec<&str>, source: PackageSource) -> (r: PackageItem)
    ensures
        r@ == item_view(id@, label@, packages@.map_values(|p: &str| p@), source),
{
    let mut names: Vec<String> = Vec::new();
    let mut i: usize = 0;
    while i < packages.len()
        invariant
            i <= packages.len(),
            string_views(names@) == packages@.take(i as int).map_values(|p: &str| p@),
        decreases packages.len() - i,
    {
        let name: &str = packages[i];
        let owned = name.to_string();
        assert(owned@ == packages@[i as int]@);
        names.push(owned);
        assert(packages@.take(i + 1).map_values(|p: &str| p@) =~= packages@.take(i as int).map_values(
            |p: &str| p@,
        ).push(packages@[i as int]@));
        i = i + 1;
        assert(string_views(names@) =~= packages@.take(i as int).map_values(|p: &str| p@));
    }
    assert(packages@.take(packages.len() as int) =~= packages@);
    let r = PackageItem { id: id.to_string(), label: label.to_string(), packages: names, source };
    assert(r@.packages =~= packages@.map_values(|p: &str| p@));
    r
}

/// The "essentials" profile's items.
pub open spec fn essentials_items() -> Seq<PackageItemView> {
    seq![
        item_view("firefox"@, "Firefox"@, seq!["firefox"@], PackageSource::Pacman),
        item_view("vlc"@, "VLC"@, seq!["vlc"@], PackageSource::Pacman),
        item_view("libreoffice"@, "LibreOffice"@, seq!["libreoffice-fresh"@], PackageSource::Pacman),
        item_view("7zip"@, "7-Zip"@, seq!["7zip"@], PackageSource::Pacman),
        item_view("flatpak"@, "Flatpak"@, seq!["flatpak"@], PackageSource::Pacman),
    ]
}

/// The "development" profile's items.
pub open spec fn development_items() -> Seq<PackageItemView> {
    seq![
        item_view("git"@, "Git"@, seq!["git"@], PackageSource::Pacman),
        item_view("vscodium"@, "VSCodium"@, seq!["vscodium"@], PackageSource::Unavailable),
        item_view("dotnet"@, ".NET SDK"@, seq!["dotnet-sdk"@], PackageSource::Pacman),
        item_view("python"@, "Python"@, seq!["python"@], PackageSource::Pacman),
        item_view("nodejs"@, "Node.js"@, seq!["nodejs"@, "npm"@], PackageSource::Pacman),
        item_view("java"@, "Java"@, seq!["jdk-openjdk"@], PackageSource::Pacman),
        item_view("docker"@, "Docker"@, seq!["docker"@, "docker-compose"@], PackageSource::Pacman),
        item_view("dbeaver"@, "DBeaver"@, seq!["dbeaver"@], PackageSource::Pacman),
    ]
}

/// The "gaming" profile's items.
pub open spec fn gaming_items() -> Seq<PackageItemView> {
    seq![
        item_view("steam"@, "Steam"@, seq!["steam"@], PackageSource::Pacman),
        item_view("heroic"@, "Heroic Games Launcher"@, seq!["heroic-games-launcher"@], PackageSource::Pacman),
        item_view("lutris"@, "Lutris"@, seq!["lutris"@], PackageSource::Pacman),
        item_view("mangohud"@, "MangoHud"@, seq!["mangohud"@], PackageSource::Pacman),
        item_view("gamemode"@, "GameMode"@, seq!["gamemode"@], PackageSource::Pacman),
        item_view("gamescope"@, "Gamescope"@, seq!["gamescope"@], PackageSource::Pacman),
    ]
}

/// Everyday utilities.
pub fn essentials() -> (r: Vec<PackageItem>)
    ensures
        item_views(r@) == essentials_items(),
{
    let r = vec![
        make_item("firefox", "Firefox", vec!["firefox"], PackageSource::Pacman),
        make_item("vlc", "VLC", vec!["vlc"], PackageSource::Pacman),
        make_item("libreoffice", "LibreOffice", vec!["libreoffice-fresh"], PackageSource::Pacman),
        make_item("7zip", "7-Zip", vec!["7zip"], PackageSource::Pacman),
        make_item("flatpak", "Flatpak", vec!["flatpak"], PackageSource::Pacman),
    ];
    assert(item_views(r@) =~~= essentials_items());
    r
}


/// Development tools.
pub fn development() -> (r: Vec<PackageItem>)
    ensures
        item_views(r@) == development_items(),
{
    let r = vec![
        make_item("git", "Git", vec!["git"], PackageSource::Pacman),
        make_item("vscodium", "VSCodium", vec!["vscodium"], PackageSource::Unavailable),
        make_item("dotnet", ".NET SDK", vec!["dotnet-sdk"], PackageSource::Pacman),
        make_item("python", "Python", vec!["python"], PackageSource::Pacman),
        make_item("nodejs", "Node.js", vec!["nodejs", "npm"], PackageSource::Pacman),
        make_item("java", "Java", vec!["jdk-openjdk"], PackageSource::Pacman),
        make_item("docker", "Docker", vec!["docker", "docker-compose"], PackageSource::Pacman),
        make_item("dbeaver", "DBeaver", vec!["dbeaver"], PackageSource::Pacman),
    ];
    assert(item_views(r@) =~~= development_items());
    r
}

/// Games and gaming tools.
pub fn gaming() -> (r: Vec<PackageItem>)
    ensures
        item_views(r@) == gaming_items(),
{
    let r = vec![
        make_item("steam", "Steam", vec!["steam"], PackageSource::Pacman),
        make_item("heroic", "Heroic Games Launcher", vec!["heroic-games-launcher"], PackageSource::Pacman),
        make_item("lutris", "Lutris", vec!["lutris"], PackageSource::Pacman),
        make_item("mangohud", "MangoHud", vec!["mangohud"], PackageSource::Pacman),
        make_item("gamemode", "GameMode", vec!["gamemode"], PackageSource::Pacman),
        make_item("gamescope", "Gamescope", vec!["gamescope"], PackageSource::Pacman),
    ];
    assert(item_views(r@) =~~= gaming_items());
    r
}

/// A profile as plain values.
#[verifier::ext_equal]
pub struct PackageProfileView {
    pub id: Seq<char>,
    pub title: Seq<char>,
    pub description: Seq<char>,
    pub items: Seq<PackageItemView>,
}

impl View for PackageProfile {
    type V = PackageProfileView;

    open spec fn view(&self) -> PackageProfileView {
        PackageProfileView {
            id: self.id@,
            title: self.title@,
            description: self.description@,
            items: item_views(self.items@),
        }
    }
}

/// The profiles offered, in display order.
pub open spec fn profile_list() -> Seq<PackageProfileView> {
    seq![
        PackageProfileView {
            id: "essentials"@,
            title: "Esenciales"@,
            description: "Instala utilidades recomendadas para un sistema de uso diario."@,
            items: essentials_items(),
        },
        PackageProfileView {
            id: "development"@,
            title: "Desarrollo"@,
            description: "Prepara GuepardOS para programación y creación de software."@,
            items: development_items(),
        },
        PackageProfileView {
            id: "gaming"@,
            title: "Gaming"@,
            description: "Instala las herramientas principales para jugar en Linux."@,
            items: gaming_items(),
        },
    ]
}

/// The package profiles offered to the user.
pub fn profiles() -> (r: Vec<PackageProfile>)
    ensures
        r@.map_values(|p: PackageProfile| p@) == profile_list(),
{
    let r = vec![
        PackageProfile {
            id: "essentials".to_string(),
            title: "Esenciales".to_string(),
            description: "Instala utilidades recomendadas para un sistema de uso diario.".to_string(),
            items: essentials(),
        },
        PackageProfile {
            id: "development".to_string(),
            title: "Desarrollo".to_string(),
            description: "Prepara GuepardOS para programación y creación de software.".to_string(),
            items: development(),
        },
        PackageProfile {
            id: "gaming".to_string(),
            title: "Gaming".to_string(),
            description: "Instala las herramientas principales para jugar en Linux.".to_string(),
            items: gaming(),
        },
    ];
    assert(r@.map_values(|p: PackageProfile| p@) =~~= profile_list());
    r
}

} // verus!
