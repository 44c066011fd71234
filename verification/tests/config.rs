use piky::config::{
    app_id, authors, gettext_package, localedir, pkgdatadir, profile, resources_file, version,
};

#[test]
fn settings_give_back_the_configured_value() {
    assert_eq!(app_id(Some("eu.anrouxel.piky")), "eu.anrouxel.piky");
    assert_eq!(gettext_package(Some("piky")), "piky");
    assert_eq!(localedir(Some("/usr/share/locale")), "/usr/share/locale");
    assert_eq!(resources_file(Some("/usr/share/piky/resources.gresource")), "/usr/share/piky/resources.gresource");
    assert_eq!(pkgdatadir(Some("/usr/share/piky")), "/usr/share/piky");
    assert_eq!(version(Some("0.1.0")), "0.1.0");
    assert_eq!(profile(Some("Devel")), "Devel");
}

#[test]
fn authors_are_split_on_colons() {
    assert_eq!(authors(Some("Ann:Bob:Cy")), vec!["Ann", "Bob", "Cy"]);
}

#[test]
fn a_single_author_is_one_part() {
    assert_eq!(authors(Some("Ann Roux <ann@example.org>")), vec!["Ann Roux <ann@example.org>"]);
}

#[test]
fn empty_authors_give_one_empty_part() {
    assert_eq!(authors(Some("")), vec![""]);
}

#[test]
fn colons_at_the_ends_give_empty_parts() {
    assert_eq!(authors(Some(":a::b:")), vec!["", "a", "", "b", ""]);
}

#[test]
fn authors_joined_back_give_the_configured_list() {
    let configured = "Zoé Ünal:Bob:é:";
    assert_eq!(authors(Some(configured)).join(":"), configured);
    for part in authors(Some(configured)) {
        assert!(!part.contains(':'));
    }
}
