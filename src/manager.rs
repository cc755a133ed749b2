//! Dependency managers and their detection from marker files.
use vstd::prelude::*;

verus! {

/// The ecosystem a dependency manager belongs to. Within one family at most
/// one manager is chosen for a repository.
#[derive(Clone, Copy, Debug, PartialEq, Eq, Structural)]
pub enum Family {
    Node,
    Rust,
    Python,
}

/// A dependency manager recognised by its marker file.
#[derive(Clone, Copy, Debug, PartialEq, Eq, Structural)]
pub enum DependencyManager {
    Npm,
    Yarn,
    Pnpm,
    Cargo,
    Pipenv,
    Poetry,
    Pip,
}

/// Which marker files are present in a repository's working directory.
#[derive(Clone, Copy, Debug, PartialEq, Eq, Structural)]
pub struct Markers {
    pub package_lock: bool,
    pub yarn_lock: bool,
    pub pnpm_lock: bool,
    pub cargo_lock: bool,
    pub pipfile: bool,
    pub poetry_lock: bool,
    pub requirements: bool,
}

impl DependencyManager {
    pub open spec fn spec_family(self) -> Family {
        match self {
            DependencyManager::Npm | DependencyManager::Yarn | DependencyManager::Pnpm => Family::Node,
            DependencyManager::Cargo => Family::Rust,
            _ => Family::Python,
        }
    }

    /// Position within the family's order of checks: lower is checked first.
    pub open spec fn spec_rank(self) -> nat {
        match self {
            DependencyManager::Npm | DependencyManager::Cargo | DependencyManager::Pipenv => 0,
            DependencyManager::Yarn | DependencyManager::Poetry => 1,
            _ => 2,
        }
    }

    pub fn family(&self) -> (r: Family)
        ensures
            r == self.spec_family(),
    {
        match self {
            DependencyManager::Npm | DependencyManager::Yarn | DependencyManager::Pnpm => Family::Node,
            DependencyManager::Cargo => Family::Rust,
            _ => Family::Python,
        }
    }

    /// The file whose presence selects this manager.
    pub fn marker(&self) -> (r: &'static str)
        ensures
            r@ == spec_marker(*self),
    {
        match self {
            DependencyManager::Npm => "package-lock.json",
            DependencyManager::Yarn => "yarn.lock",
            DependencyManager::Pnpm => "pnpm-lock.yaml",
            DependencyManager::Cargo => "Cargo.lock",
            DependencyManager::Pipenv => "Pipfile",
            DependencyManager::Poetry => "poetry.lock",
            DependencyManager::Pip => "requirements.txt",
        }
    }

    /// Every manager, in the order the checks are made.
    pub fn all() -> (r: Vec<DependencyManager>)
        ensures
            r@ == spec_all_managers(),
    {
        vec![
            DependencyManager::Npm,
            DependencyManager::Yarn,
            DependencyManager::Pnpm,
            DependencyManager::Cargo,
            DependencyManager::Pipenv,
            DependencyManager::Poetry,
            DependencyManager::Pip,
        ]
    }
}

pub open spec fn spec_marker(m: DependencyManager) -> Seq<char> {
    match m {
        DependencyManager::Npm => "package-lock.json"@,
        DependencyManager::Yarn => "yarn.lock"@,
        DependencyManager::Pnpm => "pnpm-lock.yaml"@,
        DependencyManager::Cargo => "Cargo.lock"@,
        DependencyManager::Pipenv => "Pipfile"@,
        DependencyManager::Poetry => "poetry.lock"@,
        DependencyManager::Pip => "requirements.txt"@,
    }
}

pub open spec fn spec_all_managers() -> Seq<DependencyManager> {
    seq![
        DependencyManager::Npm,
        DependencyManager::Yarn,
        DependencyManager::Pnpm,
        DependencyManager::Cargo,
        DependencyManager::Pipenv,
        DependencyManager::Poetry,
        DependencyManager::Pip,
    ]
}

impl Markers {
    pub open spec fn spec_has(self, m: DependencyManager) -> bool {
        match m {
            DependencyManager::Npm => self.package_lock,
            DependencyManager::Yarn => self.yarn_lock,
            DependencyManager::Pnpm => self.pnpm_lock,
            DependencyManager::Cargo => self.cargo_lock,
            DependencyManager::Pipenv => self.pipfile,
            DependencyManager::Poetry => self.poetry_lock,
            DependencyManager::Pip => self.requirements,
        }
    }

    /// A manager is selected when its marker is present and no marker of a
    /// manager checked earlier in the same family is.
    pub open spec fn spec_selects(self, m: DependencyManager) -> bool {
        &&& self.spec_has(m)
        &&& forall|o: DependencyManager|
            o.spec_family() == m.spec_family() && o.spec_rank() < m.spec_rank() ==> !self.spec_has(o)
    }

    /// No marker present.
    pub fn none() -> (r: Markers)
        ensures
            forall|m: DependencyManager| !r.spec_has(m),
    {
        Markers {
            package_lock: false,
            yarn_lock: false,
            pnpm_lock: false,
            cargo_lock: false,
            pipfile: false,
            poetry_lock: false,
            requirements: false,
        }
    }

    pub fn has(&self, m: DependencyManager) -> (r: bool)
        ensures
            r == self.spec_has(m),
    {
        match m {
            DependencyManager::Npm => self.package_lock,
            DependencyManager::Yarn => self.yarn_lock,
            DependencyManager::Pnpm => self.pnpm_lock,
            DependencyManager::Cargo => self.cargo_lock,
            DependencyManager::Pipenv => self.pipfile,
            DependencyManager::Poetry => self.poetry_lock,
            DependencyManager::Pip => self.requirements,
        }
    }

    /// Records that the marker of `m` is present; the others are unchanged.
    pub fn insert(&mut self, m: DependencyManager)
        ensures
            final(self).spec_has(m),
            forall|o: DependencyManager| o != m ==> final(self).spec_has(o) == old(self).spec_has(o),
    {
        match m {
            DependencyManager::Npm => self.package_lock = true,
            DependencyManager::Yarn => self.yarn_lock = true,
            DependencyManager::Pnpm => self.pnpm_lock = true,
            DependencyManager::Cargo => self.cargo_lock = true,
            DependencyManager::Pipenv => self.pipfile = true,
            DependencyManager::Poetry => self.poetry_lock = true,
            DependencyManager::Pip => self.requirements = true,
        }
    }
}

pub open spec fn spec_node_choice(k: Markers) -> Option<DependencyManager> {
    if k.package_lock {
        Some(DependencyManager::Npm)
    } else if k.yarn_lock {
        Some(DependencyManager::Yarn)
    } else if k.pnpm_lock {
        Some(DependencyManager::Pnpm)
    } else {
        None
    }
}

pub open spec fn spec_rust_choice(k: Markers) -> Option<DependencyManager> {
    if k.cargo_lock {
        Some(DependencyManager::Cargo)
    } else {
        None
    }
}

pub open spec fn spec_python_choice(k: Markers) -> Option<DependencyManager> {
    if k.pipfile {
        Some(DependencyManager::Pipenv)
    } else if k.poetry_lock {
        Some(DependencyManager::Poetry)
    } else if k.requirements {
        Some(DependencyManager::Pip)
    } else {
        None
    }
}

pub open spec fn option_seq(o: Option<DependencyManager>) -> Seq<DependencyManager> {
    match o {
        Some(m) => seq![m],
        None => Seq::empty(),
    }
}

/// The managers to run for a repository, in order: the Node.js choice, then
/// Cargo, then the Python choice.
pub open spec fn spec_detect(k: Markers) -> Seq<DependencyManager> {
    option_seq(spec_node_choice(k)) + option_seq(spec_rust_choice(k)) + option_seq(
        spec_python_choice(k),
    )
}

/// The managers whose update commands run for a repository with markers `k`.
pub fn detect(k: &Markers) -> (r: Vec<DependencyManager>)
    ensures
        r@ == spec_detect(*k),
{
    let mut r: Vec<DependencyManager> = Vec::new();
    if k.package_lock {
        r.push(DependencyManager::Npm);
    } else if k.yarn_lock {
        r.push(DependencyManager::Yarn);
    } else if k.pnpm_lock {
        r.push(DependencyManager::Pnpm);
    }
    if k.cargo_lock {
        r.push(DependencyManager::Cargo);
    }
    if k.pipfile {
        r.push(DependencyManager::Pipenv);
    } else if k.poetry_lock {
        r.push(DependencyManager::Poetry);
    } else if k.requirements {
        r.push(DependencyManager::Pip);
    }
    assert(r@ =~= spec_detect(*k));
    r
}


/// A manager runs for a repository exactly when its marker is present and no
/// manager checked before it in its family has a marker present; the managers
/// that run belong to pairwise distinct families, so none runs twice.
pub proof fn lemma_detect_selects(k: Markers)
    ensures
        forall|m: DependencyManager| spec_detect(k).contains(m) <==> k.spec_selects(m),
        forall|i: int, j: int|
            0 <= i < j < spec_detect(k).len() ==> spec_detect(k)[i].spec_family()
                != spec_detect(k)[j].spec_family(),
{
    let d = spec_detect(k);
    assert forall|m: DependencyManager| d.contains(m) <==> k.spec_selects(m) by {
        if d.contains(m) {
            let i = choose|i: int| 0 <= i < d.len() && d[i] == m;
            assert(k.spec_selects(m)) by {
                assert forall|o: DependencyManager|
                    o.spec_family() == m.spec_family() && o.spec_rank() < m.spec_rank() implies !k.spec_has(o) by {
                    match o {
                        DependencyManager::Npm => {},
                        _ => {},
                    }
                }
            }
        }
        if k.spec_selects(m) {
            match m {
                DependencyManager::Npm => { assert(d[0] == m); },
                DependencyManager::Yarn => {
                    assert(DependencyManager::Npm.spec_family() == m.spec_family());
                    assert(!k.spec_has(DependencyManager::Npm));
                    assert(d[0] == m);
                },
                DependencyManager::Pnpm => {
                    assert(DependencyManager::Npm.spec_family() == m.spec_family());
                    assert(DependencyManager::Yarn.spec_family() == m.spec_family());
                    assert(!k.spec_has(DependencyManager::Npm));
                    assert(!k.spec_has(DependencyManager::Yarn));
                    assert(d[0] == m);
                },
                DependencyManager::Cargo => {
                    let n = option_seq(spec_node_choice(k)).len() as int;
                    assert(d[n] == m);
                },
                DependencyManager::Pipenv => {
                    let n = d.len() - 1;
                    assert(d[n] == m);
                },
                DependencyManager::Poetry => {
                    assert(DependencyManager::Pipenv.spec_family() == m.spec_family());
                    assert(!k.spec_has(DependencyManager::Pipenv));
                    let n = d.len() - 1;
                    assert(d[n] == m);
                },
                DependencyManager::Pip => {
                    assert(DependencyManager::Pipenv.spec_family() == m.spec_family());
                    assert(DependencyManager::Poetry.spec_family() == m.spec_family());
                    assert(!k.spec_has(DependencyManager::Pipenv));
                    assert(!k.spec_has(DependencyManager::Poetry));
                    let n = d.len() - 1;
                    assert(d[n] == m);
                },
            }
        }
    }
}

/// Where two managers of one family have their markers present, only the one
/// checked first runs.
pub proof fn lemma_family_exclusive(k: Markers, first: DependencyManager, later: DependencyManager)
    requires
        first.spec_family() == later.spec_family(),
        first.spec_rank() < later.spec_rank(),
        k.spec_has(first),
    ensures
        !spec_detect(k).contains(later),
{
    lemma_detect_selects(k);
}

/// Every family with a marker present runs exactly one of its managers, and a
/// family without markers runs none.
pub proof fn lemma_one_per_marked_family(k: Markers, f: Family)
    ensures
        (exists|m: DependencyManager| m.spec_family() == f && k.spec_has(m)) <==> (exists|i: int|
            0 <= i < spec_detect(k).len() && spec_detect(k)[i].spec_family() == f),
        forall|i: int, j: int|
            0 <= i < spec_detect(k).len() && 0 <= j < spec_detect(k).len()
                && spec_detect(k)[i].spec_family() == f && spec_detect(k)[j].spec_family() == f
                ==> i == j,
{
    lemma_detect_selects(k);
    let d = spec_detect(k);
    if exists|m: DependencyManager| m.spec_family() == f && k.spec_has(m) {
        let m = choose|m: DependencyManager| m.spec_family() == f && k.spec_has(m);
        let c = match f {
            Family::Node => spec_node_choice(k),
            Family::Rust => spec_rust_choice(k),
            Family::Python => spec_python_choice(k),
        };
        match m {
            DependencyManager::Npm => {},
            _ => {},
        }
        let w = c.unwrap();
        match f {
            Family::Node => assert(d[0] == w),
            Family::Rust => {
                let n = option_seq(spec_node_choice(k)).len() as int;
                assert(d[n] == w);
            },
            Family::Python => {
                let n = d.len() - 1;
                assert(d[n] == w);
            },
        }
        assert(d.contains(w));
    }
    if exists|i: int| 0 <= i < d.len() && d[i].spec_family() == f {
        let i = choose|i: int| 0 <= i < d.len() && d[i].spec_family() == f;
        assert(d.contains(d[i]));
        assert(k.spec_has(d[i]));
    }
}

} // verus!
