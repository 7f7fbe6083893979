//! The package managers the library can drive, and the order in which they are
//! probed for.

use vstd::prelude::*;
use crate::text::same_text;

verus! {

/// A package manager. Chosen once per run and never changed afterwards.
#[derive(Clone, Copy, Debug, PartialEq, Eq, Hash, Structural)]
pub enum PackageManagerKind {
    Apt,
    Dnf,
    Yum,
    Pacman,
    Zypper,
}

/// How many managers are probed for, at most.
pub const CANDIDATE_COUNT: usize = 5;

/// The managers in the order in which they are probed for.
pub open spec fn candidate_order() -> Seq<PackageManagerKind> {
    seq![
        PackageManagerKind::Apt,
        PackageManagerKind::Dnf,
        PackageManagerKind::Yum,
        PackageManagerKind::Pacman,
        PackageManagerKind::Zypper,
    ]
}

/// The manager assumed when none was detected, and the one an unknown
/// identifier stands for.
pub open spec fn fallback_kind() -> PackageManagerKind {
    PackageManagerKind::Apt
}

impl PackageManagerKind {
    /// The identifier of this manager.
    pub open spec fn spec_name(self) -> Seq<char> {
        match self {
            PackageManagerKind::Apt => "apt"@,
            PackageManagerKind::Dnf => "dnf"@,
            PackageManagerKind::Yum => "yum"@,
            PackageManagerKind::Pacman => "pacman"@,
            PackageManagerKind::Zypper => "zypper"@,
        }
    }

    /// The manager an identifier stands for: the one of that name, and the
    /// fallback for every other text.
    pub open spec fn spec_from_name(name: Seq<char>) -> PackageManagerKind {
        if name == "dnf"@ {
            PackageManagerKind::Dnf
        } else if name == "yum"@ {
            PackageManagerKind::Yum
        } else if name == "pacman"@ {
            PackageManagerKind::Pacman
        } else if name == "zypper"@ {
            PackageManagerKind::Zypper
        } else {
            PackageManagerKind::Apt
        }
    }

    pub fn name(self) -> (name: &'static str)
        ensures
            name@ == self.spec_name(),
    {
        match self {
            PackageManagerKind::Apt => "apt",
            PackageManagerKind::Dnf => "dnf",
            PackageManagerKind::Yum => "yum",
            PackageManagerKind::Pacman => "pacman",
            PackageManagerKind::Zypper => "zypper",
        }
    }

    pub fn from_name(name: &str) -> (kind: PackageManagerKind)
        ensures
            kind == Self::spec_from_name(name@),
    {
        if same_text(name, "dnf") {
            PackageManagerKind::Dnf
        } else if same_text(name, "yum") {
            PackageManagerKind::Yum
        } else if same_text(name, "pacman") {
            PackageManagerKind::Pacman
        } else if same_text(name, "zypper") {
            PackageManagerKind::Zypper
        } else {
            PackageManagerKind::Apt
        }
    }

    /// The manager probed for at position `index`.
    pub fn candidate(index: usize) -> (kind: PackageManagerKind)
        requires
            index < CANDIDATE_COUNT,
        ensures
            kind == candidate_order()[index as int],
    {
        if index == 0 {
            PackageManagerKind::Apt
        } else if index == 1 {
            PackageManagerKind::Dnf
        } else if index == 2 {
            PackageManagerKind::Yum
        } else if index == 3 {
            PackageManagerKind::Pacman
        } else {
            PackageManagerKind::Zypper
        }
    }

    /// All managers, in probing order.
    pub fn candidates() -> (all: Vec<PackageManagerKind>)
        ensures
            all@ == candidate_order(),
    {
        let mut all: Vec<PackageManagerKind> = Vec::new();
        all.push(PackageManagerKind::Apt);
        all.push(PackageManagerKind::Dnf);
        all.push(PackageManagerKind::Yum);
        all.push(PackageManagerKind::Pacman);
        all.push(PackageManagerKind::Zypper);
        assert(all@ =~= candidate_order());
        all
    }
}

impl Default for PackageManagerKind {
    fn default() -> (kind: PackageManagerKind)
        ensures
            kind == fallback_kind(),
    {
        PackageManagerKind::Apt
    }
}

/// The five identifiers are pairwise different, so an identifier names at most
/// one manager.
pub proof fn lemma_names_distinct(a: PackageManagerKind, b: PackageManagerKind)
    ensures
        a.spec_name() == b.spec_name() <==> a == b,
{
    reveal_strlit("apt");
    reveal_strlit("dnf");
    reveal_strlit("yum");
    reveal_strlit("pacman");
    reveal_strlit("zypper");
    if a != b {
        let x = a.spec_name();
        let y = b.spec_name();
        if x.len() == y.len() {
            assert(x[0] != y[0]);
        }
    }
}

/// Reading a manager's own identifier gives that manager back.
pub proof fn lemma_name_round_trip(kind: PackageManagerKind)
    ensures
        PackageManagerKind::spec_from_name(kind.spec_name()) == kind,
{
    lemma_names_distinct(kind, PackageManagerKind::Apt);
    lemma_names_distinct(kind, PackageManagerKind::Dnf);
    lemma_names_distinct(kind, PackageManagerKind::Yum);
    lemma_names_distinct(kind, PackageManagerKind::Pacman);
    lemma_names_distinct(kind, PackageManagerKind::Zypper);
}

/// Every identifier that is not the name of a manager stands for the fallback.
pub proof fn lemma_unknown_name_is_fallback(name: Seq<char>)
    requires
        forall|kind: PackageManagerKind| kind.spec_name() != name,
    ensures
        PackageManagerKind::spec_from_name(name) == fallback_kind(),
{
    assert(PackageManagerKind::Dnf.spec_name() != name);
    assert(PackageManagerKind::Yum.spec_name() != name);
    assert(PackageManagerKind::Pacman.spec_name() != name);
    assert(PackageManagerKind::Zypper.spec_name() != name);
}

} // verus!
