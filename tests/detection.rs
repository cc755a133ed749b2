use mpr::manager::{detect, DependencyManager, Family, Markers};

fn markers_of(present: &[DependencyManager]) -> Markers {
    let mut k = Markers::none();
    for m in present {
        k.insert(*m);
    }
    k
}

#[test]
fn no_markers_detects_nothing() {
    assert_eq!(detect(&Markers::none()), vec![]);
}

#[test]
fn npm_and_cargo_both_detected_once() {
    let k = markers_of(&[DependencyManager::Npm, DependencyManager::Cargo]);
    assert_eq!(detect(&k), vec![DependencyManager::Npm, DependencyManager::Cargo]);
}

#[test]
fn yarn_wins_over_pnpm() {
    let k = markers_of(&[DependencyManager::Yarn, DependencyManager::Pnpm]);
    assert_eq!(detect(&k), vec![DependencyManager::Yarn]);
}

#[test]
fn npm_wins_over_yarn_and_pnpm() {
    let k = markers_of(&[DependencyManager::Pnpm, DependencyManager::Yarn, DependencyManager::Npm]);
    assert_eq!(detect(&k), vec![DependencyManager::Npm]);
}

#[test]
fn python_family_priority() {
    let k = markers_of(&[DependencyManager::Pip, DependencyManager::Poetry]);
    assert_eq!(detect(&k), vec![DependencyManager::Poetry]);
    let k = markers_of(&[DependencyManager::Pip, DependencyManager::Pipenv, DependencyManager::Poetry]);
    assert_eq!(detect(&k), vec![DependencyManager::Pipenv]);
    let k = markers_of(&[DependencyManager::Pip]);
    assert_eq!(detect(&k), vec![DependencyManager::Pip]);
}

#[test]
fn all_markers_give_one_per_family() {
    let k = markers_of(&DependencyManager::all());
    assert_eq!(
        detect(&k),
        vec![DependencyManager::Npm, DependencyManager::Cargo, DependencyManager::Pipenv]
    );
}

#[test]
fn cargo_and_poetry_detected() {
    let k = markers_of(&[DependencyManager::Cargo, DependencyManager::Poetry]);
    assert_eq!(detect(&k), vec![DependencyManager::Cargo, DependencyManager::Poetry]);
}

#[test]
fn detection_repeats_on_same_markers() {
    let k = markers_of(&[DependencyManager::Pnpm, DependencyManager::Cargo, DependencyManager::Pip]);
    assert_eq!(detect(&k), detect(&k));
}

#[test]
fn marker_file_names() {
    let names: Vec<&str> = DependencyManager::all().iter().map(|m| m.marker()).collect();
    assert_eq!(
        names,
        vec![
            "package-lock.json",
            "yarn.lock",
            "pnpm-lock.yaml",
            "Cargo.lock",
            "Pipfile",
            "poetry.lock",
            "requirements.txt"
        ]
    );
}

#[test]
fn families() {
    assert_eq!(DependencyManager::Pnpm.family(), Family::Node);
    assert_eq!(DependencyManager::Cargo.family(), Family::Rust);
    assert_eq!(DependencyManager::Pip.family(), Family::Python);
}

#[test]
fn insert_and_has() {
    let k = markers_of(&[DependencyManager::Poetry]);
    assert!(k.has(DependencyManager::Poetry));
    assert!(!k.has(DependencyManager::Pipenv));
    assert!(!k.has(DependencyManager::Npm));
}
