use poetry::add::update_dependencies;
use poetry::document::{Dependency, DependencyMetadata, DependencyTable, GitSource, Versioned};
use poetry::error::PoetryError;
use poetry::version::Version;

fn text(s: &str) -> String {
    s.to_string()
}

fn version(major: u64) -> DependencyMetadata {
    DependencyMetadata::Versioned(Versioned {
        version: Version { major, minor: 0, patch: 0, pre: text(""), build: text("") },
    })
}

fn table(entries: &[(&str, u64)]) -> DependencyTable {
    let mut table = DependencyTable::new();
    for (name, major) in entries {
        assert_eq!(table.insert(text(name), version(*major)), Ok(()));
    }
    table
}

fn conflict(names: &[&str]) -> PoetryError {
    PoetryError::AddError { deps: names.iter().map(|n| text(n)).collect() }
}

#[test]
fn merging_a_declared_name_is_a_conflict() {
    let existing = table(&[("numpy", 1)]);
    let incoming = table(&[("numpy", 1)]);
    assert_eq!(update_dependencies(Some(existing), incoming), Err(conflict(&["numpy"])));
}

#[test]
fn conflict_does_not_depend_on_the_metadata() {
    let existing = table(&[("numpy", 1)]);
    let incoming = table(&[("numpy", 2)]);
    assert_eq!(update_dependencies(Some(existing), incoming), Err(conflict(&["numpy"])));
}

#[test]
fn merging_into_an_empty_table_adds_every_entry() {
    let merged = update_dependencies(Some(DependencyTable::new()), table(&[("numpy", 1), ("requests", 2)]))
        .unwrap();
    assert_eq!(merged.len(), 2);
    assert_eq!(merged.get(&text("numpy")), Some(&version(1)));
    assert_eq!(merged.get(&text("requests")), Some(&version(2)));
}

#[test]
fn merging_into_a_missing_table_adds_every_entry() {
    let merged = update_dependencies(None, table(&[("numpy", 1), ("requests", 2)])).unwrap();
    assert_eq!(merged, table(&[("numpy", 1), ("requests", 2)]));
}

#[test]
fn merge_keeps_what_was_declared() {
    let merged =
        update_dependencies(Some(table(&[("a", 1), ("b", 2)])), table(&[("c", 3), ("d", 4)])).unwrap();
    assert_eq!(merged.len(), 4);
    assert_eq!(merged, table(&[("a", 1), ("b", 2), ("c", 3), ("d", 4)]));
    for (name, major) in [("a", 1), ("b", 2), ("c", 3), ("d", 4)] {
        assert_eq!(merged.get(&text(name)), Some(&version(major)));
    }
}

#[test]
fn conflict_lists_the_clashing_names_in_the_order_of_the_update() {
    let existing = table(&[("a", 1), ("b", 2), ("c", 3)]);
    let incoming = table(&[("c", 9), ("x", 9), ("a", 9), ("y", 9)]);
    assert_eq!(update_dependencies(Some(existing), incoming), Err(conflict(&["c", "a"])));
}

#[test]
fn names_are_keys_as_they_are_written() {
    let merged = update_dependencies(Some(table(&[("numpy", 1)])), table(&[("NumPy", 2)])).unwrap();
    assert_eq!(merged.len(), 2);
    assert_eq!(merged.get(&text("numpy")), Some(&version(1)));
    assert_eq!(merged.get(&text("NumPy")), Some(&version(2)));
}

#[test]
fn merging_nothing_changes_nothing() {
    assert_eq!(
        update_dependencies(Some(table(&[("a", 1)])), DependencyTable::new()),
        Ok(table(&[("a", 1)]))
    );
    assert_eq!(update_dependencies(None, DependencyTable::new()), Ok(DependencyTable::new()));
    assert_eq!(table(&[("a", 1)]).merge(table(&[("b", 2)])), Ok(table(&[("a", 1), ("b", 2)])));
}

#[test]
fn table_never_replaces_an_entry() {
    let mut t = table(&[("a", 1)]);
    assert_eq!(t.insert(text("a"), version(2)), Err(conflict(&["a"])));
    assert_eq!(t, table(&[("a", 1)]));
    assert_eq!(t.get(&text("a")), Some(&version(1)));
}

#[test]
fn table_reads_back_what_was_declared() {
    let mut t = DependencyTable::new();
    assert_eq!(t.len(), 0);
    assert!(!t.contains(&text("a")));
    assert_eq!(t.get(&text("a")), None);
    assert_eq!(t.entry(0), None);
    let git = DependencyMetadata::Git(GitSource { url: text("u"), revision: Some(text("r")) });
    assert_eq!(t.insert(text("a"), version(1)), Ok(()));
    assert_eq!(t.insert(text("b"), git), Ok(()));
    assert_eq!(t.len(), 2);
    assert!(t.contains(&text("a")));
    assert!(t.contains(&text("b")));
    assert!(!t.contains(&text("A")));
    assert_eq!(t.entry(0), Some(&Dependency { name: text("a"), metadata: version(1) }));
    assert_eq!(t.entry(1).map(|e| e.name.as_str()), Some("b"));
    assert_eq!(t.entry(2), None);
}

#[test]
fn table_from_lists_pairs_names_with_metadata() {
    let names = vec![text("a"), text("b")];
    assert_eq!(
        DependencyTable::from_lists(&names, vec![version(1), version(2)]),
        Ok(table(&[("a", 1), ("b", 2)]))
    );
    assert_eq!(DependencyTable::from_lists(&Vec::new(), Vec::new()), Ok(DependencyTable::new()));
}

#[test]
fn table_from_lists_that_do_not_pair_up() {
    let names = vec![text("a"), text("b")];
    assert_eq!(DependencyTable::from_lists(&names, vec![version(1)]), Err(conflict(&["a", "b"])));
    assert_eq!(
        DependencyTable::from_lists(&names, vec![version(1), version(2), version(3)]),
        Err(conflict(&["a", "b"]))
    );
    assert_eq!(DependencyTable::from_lists(&Vec::new(), vec![version(1)]), Err(conflict(&[])));
}

#[test]
fn table_from_lists_with_a_repeated_name() {
    let names = vec![text("a"), text("b"), text("c"), text("b"), text("a")];
    let metadata = vec![version(1), version(2), version(3), version(4), version(5)];
    assert_eq!(DependencyTable::from_lists(&names, metadata), Err(conflict(&["b"])));
}
