use guepardos_welcome::package_installer::{
    development, essentials, gaming, is_installed, missing_packages, profiles, PackageItem,
    PackageSource,
};

fn names(v: &[&str]) -> Vec<String> {
    v.iter().map(|s| s.to_string()).collect()
}

fn item(id: &str, packages: &[&str], source: PackageSource) -> PackageItem {
    PackageItem { id: id.to_string(), label: id.to_string(), packages: names(packages), source }
}

#[test]
fn profiles_are_listed_in_order() {
    let p = profiles();
    assert_eq!(p.len(), 3);
    assert_eq!(p[0].id, "essentials");
    assert_eq!(p[1].title, "Desarrollo");
    assert_eq!(p[2].items.len(), 6);
    assert_eq!(essentials().len(), 5);
    assert_eq!(development().len(), 8);
    assert_eq!(gaming().len(), 6);
}

#[test]
fn vscodium_is_unavailable() {
    let d = development();
    assert_eq!(d[1].id, "vscodium");
    assert_eq!(d[1].source, PackageSource::Unavailable);
    assert_eq!(d[4].packages, vec!["nodejs", "npm"]);
}

#[test]
fn installed_needs_every_package() {
    let node = item("nodejs", &["nodejs", "npm"], PackageSource::Pacman);
    assert!(is_installed(&node, &names(&["npm", "nodejs", "git"])));
    assert!(!is_installed(&node, &names(&["nodejs"])));
    let empty = item("none", &[], PackageSource::Pacman);
    assert!(is_installed(&empty, &names(&[])));
}

#[test]
fn missing_lists_each_package_once_in_order() {
    let items = vec![
        item("a", &["docker", "docker-compose"], PackageSource::Pacman),
        item("b", &["git", "docker"], PackageSource::Pacman),
        item("c", &["python"], PackageSource::Pacman),
    ];
    let m = missing_packages(&items, &names(&["git"]));
    assert_eq!(m, vec!["docker", "docker-compose", "python"]);
}

#[test]
fn missing_skips_unavailable_sources() {
    let items = vec![
        item("vscodium", &["vscodium"], PackageSource::Unavailable),
        item("git", &["git"], PackageSource::Pacman),
    ];
    assert_eq!(missing_packages(&items, &names(&[])), vec!["git"]);
}

#[test]
fn nothing_missing_when_all_installed() {
    let items = essentials();
    let all = names(&["firefox", "vlc", "libreoffice-fresh", "7zip", "flatpak"]);
    assert!(missing_packages(&items, &all).is_empty());
    for i in &items {
        assert!(is_installed(i, &all));
    }
}

#[test]
fn missing_for_development_profile() {
    let m = missing_packages(&development(), &names(&["git", "python"]));
    assert_eq!(m, vec!["dotnet-sdk", "nodejs", "npm", "jdk-openjdk", "docker", "docker-compose", "dbeaver"]);
}
