//! The build metadata of a workspace: packages and their targets.

use vstd::prelude::*;

verus! {

/// The kind of a target, as the build system declares it.
#[derive(Debug, Clone, Copy, PartialEq, Eq, Structural, Hash)]
pub enum Kind {
    /// An executable of the package.
    Binary,
    /// An example.
    Example,
    /// A benchmark.
    Bench,
    /// A plain library.
    Library,
    /// A procedural macro.
    ProcMacro,
    /// A dynamic library.
    DyLib,
    /// A dynamic library with a C interface.
    CDyLib,
    /// A static library.
    StaticLib,
    /// A Rust library file.
    RLib,
    /// An integration test.
    Test,
    /// A build script.
    CustomBuild,
}

impl Kind {
    /// Whether a target of this kind is placed as an executable below the
    /// profile's directory.
    pub open spec fn is_executable(self) -> bool {
        self == Kind::Binary || self == Kind::Example || self == Kind::Bench
    }

    /// Tells whether a target of this kind resolves to an executable.
    pub fn executable(&self) -> (yes: bool)
        ensures
            yes == self.is_executable(),
    {
        match self {
            Kind::Binary | Kind::Example | Kind::Bench => true,
            _ => false,
        }
    }
}

/// The type of artifact that a target is compiled to.
#[derive(Debug, Clone, Copy, PartialEq, Eq, Structural, Hash)]
pub enum CrateType {
    /// An executable.
    Binary,
    /// A plain library.
    Library,
    /// A procedural macro.
    ProcMacro,
    /// A dynamic library.
    DyLib,
    /// A dynamic library with a C interface.
    CDyLib,
    /// A static library.
    StaticLib,
    /// A Rust library file.
    RLib,
}

/// One buildable unit of a package.
#[derive(Debug, Clone)]
pub struct PackageTarget {
    /// The name of the target.
    pub name: String,
    /// The artifact types that the target is compiled to.
    pub crate_types: Vec<CrateType>,
    /// The declared kinds; the first decides where the artifact is placed.
    pub kind: Vec<Kind>,
}

/// The mathematical value of a [`PackageTarget`].
pub struct PackageTargetView {
    pub name: Seq<char>,
    pub crate_types: Seq<CrateType>,
    pub kind: Seq<Kind>,
}

impl View for PackageTarget {
    type V = PackageTargetView;

    open spec fn view(&self) -> PackageTargetView {
        PackageTargetView { name: self.name@, crate_types: self.crate_types@, kind: self.kind@ }
    }
}

impl PackageTargetView {
    /// Whether the target is compiled to an executable.
    pub open spec fn is_binary(self) -> bool {
        self.crate_types.contains(CrateType::Binary)
    }

    /// Whether the target can be mapped to an executable: it is none, or its
    /// first kind is one of the executable kinds.
    pub open spec fn is_resolvable(self) -> bool {
        self.is_binary() ==> self.kind.len() > 0 && self.kind[0].is_executable()
    }
}

impl PackageTarget {
    /// Tells whether the target is compiled to an executable.
    pub fn is_binary(&self) -> (yes: bool)
        ensures
            yes == self@.is_binary(),
    {
        let mut i: usize = 0;
        while i < self.crate_types.len()
            invariant
                i <= self.crate_types.len(),
                forall|j: int| 0 <= j < i ==> self.crate_types@[j] != CrateType::Binary,
            decreases self.crate_types.len() - i,
        {
            if self.crate_types[i] == CrateType::Binary {
                return true;
            }
            i += 1;
        }
        false
    }

    /// Tells whether the target can be mapped to an executable.
    pub fn is_resolvable(&self) -> (yes: bool)
        ensures
            yes == self@.is_resolvable(),
    {
        !self.is_binary() || (self.kind.len() > 0 && self.kind[0].executable())
    }
}

/// A package of the workspace.
#[derive(Debug, Clone)]
pub struct Package {
    /// The absolute path of the package's manifest.
    pub manifest_path: String,
    /// The targets of the package, in declaration order.
    pub targets: Vec<PackageTarget>,
}

/// The mathematical value of a [`Package`].
pub struct PackageView {
    pub manifest_path: Seq<char>,
    pub targets: Seq<PackageTargetView>,
}

impl View for Package {
    type V = PackageView;

    open spec fn view(&self) -> PackageView {
        PackageView {
            manifest_path: self.manifest_path@,
            targets: Seq::new(self.targets@.len(), |i: int| self.targets@[i]@),
        }
    }
}

/// The metadata of a workspace.
#[derive(Debug, Clone)]
pub struct Metadata {
    /// The packages of the workspace.
    pub packages: Vec<Package>,
    /// The root directory of the build output.
    pub target_directory: String,
}

/// The mathematical value of a [`Metadata`].
pub struct MetadataView {
    pub packages: Seq<PackageView>,
    pub target_directory: Seq<char>,
}

impl View for Metadata {
    type V = MetadataView;

    open spec fn view(&self) -> MetadataView {
        MetadataView {
            packages: Seq::new(self.packages@.len(), |i: int| self.packages@[i]@),
            target_directory: self.target_directory@,
        }
    }
}

impl MetadataView {
    /// Whether every executable target of the packages at `requested` can be
    /// mapped to an executable path.
    pub open spec fn is_resolvable(self, requested: Seq<char>) -> bool {
        forall|p: int, t: int|
            0 <= p < self.packages.len() && self.packages[p].manifest_path == requested && 0 <= t
                < self.packages[p].targets.len()
                ==> (#[trigger] self.packages[p].targets[t]).is_resolvable()
    }
}

impl Metadata {
    /// Tells whether every executable target of the packages at `requested`
    /// can be mapped to an executable path.
    pub fn is_resolvable(&self, requested: &str) -> (yes: bool)
        ensures
            yes == self@.is_resolvable(requested@),
    {
        let mut p: usize = 0;
        while p < self.packages.len()
            invariant
                p <= self.packages.len(),
                forall|a: int, t: int|
                    0 <= a < p && self@.packages[a].manifest_path == requested@ && 0 <= t
                        < self@.packages[a].targets.len()
                        ==> (#[trigger] self@.packages[a].targets[t]).is_resolvable(),
            decreases self.packages.len() - p,
        {
            let package = &self.packages[p];
            if crate::path::same_text(package.manifest_path.as_str(), requested) {
                let mut t: usize = 0;
                while t < package.targets.len()
                    invariant
                        t <= package.targets.len(),
                        p < self.packages.len(),
                        package@ == self@.packages[p as int],
                        package@.manifest_path == requested@,
                        forall|b: int|
                            0 <= b < t ==> (#[trigger] package@.targets[b]).is_resolvable(),
                    decreases package.targets.len() - t,
                {
                    if !package.targets[t].is_resolvable() {
                        assert(package@.targets[t as int] == package.targets@[t as int]@);
                        assert(!self@.packages[p as int].targets[t as int].is_resolvable());
                        return false;
                    }
                    assert(package@.targets[t as int] == package.targets@[t as int]@);
                    t += 1;
                }
            }
            p += 1;
        }
        true
    }
}

} // verus!
