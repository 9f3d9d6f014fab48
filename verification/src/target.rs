//! Resolving the executable of a package that is to be built and analysed.

use vstd::prelude::*;
use vstd::string::*;
use crate::profile::Build;
use crate::document::{metadata, metadata_in, MetadataError};
use crate::metadata::{Kind, Metadata, MetadataView, PackageTarget, PackageTargetView};
use crate::path::{join, joined, same_text};

verus! {

/// An executable of a package, identified by its kind and its name.
#[derive(Debug)]
pub enum Target {
    /// A binary of the package.
    Binary(String),
    /// An example.
    Example(String),
    /// A benchmark.
    Benchmark(String),
}

/// The mathematical value of a [`Target`].
pub enum TargetView {
    Binary(Seq<char>),
    Example(Seq<char>),
    Benchmark(Seq<char>),
}

impl View for Target {
    type V = TargetView;

    open spec fn view(&self) -> TargetView {
        match self {
            Target::Binary(name) => TargetView::Binary(name@),
            Target::Example(name) => TargetView::Example(name@),
            Target::Benchmark(name) => TargetView::Benchmark(name@),
        }
    }
}

impl TargetView {
    /// The name of the target.
    pub open spec fn name(self) -> Seq<char> {
        match self {
            TargetView::Binary(name) => name,
            TargetView::Example(name) => name,
            TargetView::Benchmark(name) => name,
        }
    }

    /// The directory, below the profile's directory, that holds targets of
    /// this kind; empty for binaries, which lie directly in it.
    pub open spec fn subdirectory(self) -> Seq<char> {
        match self {
            TargetView::Binary(_) => Seq::<char>::empty(),
            TargetView::Example(_) => "examples"@,
            TargetView::Benchmark(_) => "benches"@,
        }
    }

    /// The path of the executable below the build-output root
    /// `target_directory`, built with profile `build`.
    pub open spec fn path(self, target_directory: Seq<char>, build: Build) -> Seq<char> {
        joined(
            joined(joined(target_directory, build.dir_name()), self.subdirectory()),
            self.name(),
        )
    }
}

impl Clone for Target {
    fn clone(&self) -> (copy: Target)
        ensures
            copy@ == self@,
    {
        match self {
            Target::Binary(name) => Target::Binary(name.clone()),
            Target::Example(name) => Target::Example(name.clone()),
            Target::Benchmark(name) => Target::Benchmark(name.clone()),
        }
    }
}

impl PartialEq for Target {
    fn eq(&self, other: &Target) -> (same: bool) {
        match (self, other) {
            (Target::Binary(a), Target::Binary(b)) => same_text(a.as_str(), b.as_str()),
            (Target::Example(a), Target::Example(b)) => same_text(a.as_str(), b.as_str()),
            (Target::Benchmark(a), Target::Benchmark(b)) => same_text(a.as_str(), b.as_str()),
            _ => false,
        }
    }
}

impl vstd::std_specs::cmp::PartialEqSpecImpl for Target {
    open spec fn obeys_eq_spec() -> bool {
        true
    }

    open spec fn eq_spec(&self, other: &Target) -> bool {
        self@ == other@
    }
}

impl Eq for Target {

}

impl Target {
    /// The name of the target.
    pub fn name(&self) -> (name: &str)
        ensures
            name@ == self@.name(),
    {
        match self {
            Target::Binary(name) => name.as_str(),
            Target::Example(name) => name.as_str(),
            Target::Benchmark(name) => name.as_str(),
        }
    }

    /// The directory of the target's kind below the profile's directory.
    pub fn subdirectory(&self) -> (dir: &'static str)
        ensures
            dir@ == self@.subdirectory(),
    {
        match self {
            Target::Binary(_) => {
                proof {
                    reveal_strlit("");
                    assert(""@ =~= Seq::<char>::empty());
                }
                ""
            },
            Target::Example(_) => "examples",
            Target::Benchmark(_) => "benches",
        }
    }

    /// The option of the build command that selects a target of this kind.
    pub fn build_flag(&self) -> (flag: &'static str)
        ensures
            flag@ == crate::source::build_flag_of(self@),
    {
        match self {
            Target::Binary(_) => "--bin",
            Target::Example(_) => "--example",
            Target::Benchmark(_) => "--bench",
        }
    }

    /// The path of the executable below the build-output root
    /// `target_directory`, built with profile `build`.
    pub fn path(&self, target_directory: &str, build: Build) -> (path: String)
        ensures
            path@ == self@.path(target_directory@, build),
    {
        let profile = join(target_directory, build.as_str());
        let directory = join(profile.as_str(), self.subdirectory());
        join(directory.as_str(), self.name())
    }
}

/// The views of the targets in `targets`, in order.
pub open spec fn target_views(targets: Seq<Target>) -> Seq<TargetView> {
    Seq::new(targets.len(), |i: int| targets[i]@)
}

/// The texts of `paths`, in order.
pub open spec fn path_views(paths: Seq<String>) -> Seq<Seq<char>> {
    Seq::new(paths.len(), |i: int| paths[i]@)
}

/// The executable that a resolvable target with the executable crate type
/// stands for: its first kind decides the variant.
pub open spec fn executable_of(target: PackageTargetView) -> TargetView
    recommends
        target.is_binary(),
        target.is_resolvable(),
{
    match target.kind[0] {
        Kind::Example => TargetView::Example(target.name),
        Kind::Bench => TargetView::Benchmark(target.name),
        _ => TargetView::Binary(target.name),
    }
}

/// The executables among `targets`, in order.
pub open spec fn package_executables(targets: Seq<PackageTargetView>) -> Seq<TargetView>
    decreases targets.len(),
{
    if targets.len() == 0 {
        Seq::empty()
    } else if targets.last().is_binary() {
        package_executables(targets.drop_last()).push(executable_of(targets.last()))
    } else {
        package_executables(targets.drop_last())
    }
}

/// The executables of the packages of `metadata` whose manifest path is
/// `requested`, in order; the first `count` packages are looked at.
pub open spec fn executables_among(
    metadata: MetadataView,
    requested: Seq<char>,
    count: nat,
) -> Seq<TargetView>
    decreases count,
{
    if count == 0 || count > metadata.packages.len() {
        Seq::empty()
    } else {
        let package = metadata.packages[count - 1];
        let before = executables_among(metadata, requested, (count - 1) as nat);
        if package.manifest_path == requested {
            before + package_executables(package.targets)
        } else {
            before
        }
    }
}

/// The executables of the packages of `metadata` whose manifest path is
/// `requested`.
pub open spec fn executables(metadata: MetadataView, requested: Seq<char>) -> Seq<TargetView> {
    executables_among(metadata, requested, metadata.packages.len())
}

/// The paths of `targets` below `target_directory` under profile `build`.
pub open spec fn executable_paths(
    targets: Seq<TargetView>,
    target_directory: Seq<char>,
    build: Build,
) -> Seq<Seq<char>> {
    Seq::new(targets.len(), |i: int| targets[i].path(target_directory, build))
}

/// Maps a resolvable target with the executable crate type to the executable
/// it stands for.
fn executable_from(target: &PackageTarget) -> (executable: Target)
    requires
        target@.is_binary(),
        target@.is_resolvable(),
    ensures
        executable@ == executable_of(target@),
{
    match target.kind[0] {
        Kind::Example => Target::Example(target.name.clone()),
        Kind::Bench => Target::Benchmark(target.name.clone()),
        _ => Target::Binary(target.name.clone()),
    }
}

/// Lists the executables of the packages whose manifest path is exactly
/// `requested`: the targets compiled to an executable, in metadata order.
/// Packages at any other manifest path are left out.
pub fn enumerate_executables(metadata: &Metadata, requested: &str) -> (found: Vec<Target>)
    requires
        metadata@.is_resolvable(requested@),
    ensures
        target_views(found@) == executables(metadata@, requested@),
{
    let mut found: Vec<Target> = Vec::new();
    let mut p: usize = 0;
    while p < metadata.packages.len()
        invariant
            p <= metadata.packages.len(),
            metadata@.is_resolvable(requested@),
            target_views(found@) =~= executables_among(metadata@, requested@, p as nat),
        decreases metadata.packages.len() - p,
    {
        let package = &metadata.packages[p];
        let ghost before = target_views(found@);
        if same_text(package.manifest_path.as_str(), requested) {
            let mut t: usize = 0;
            assert(package@.targets.take(0) =~= Seq::empty());
            while t < package.targets.len()
                invariant
                    t <= package.targets.len(),
                    package@ == metadata@.packages[p as int],
                    package@.manifest_path == requested@,
                    0 <= p < metadata@.packages.len(),
                    metadata@.is_resolvable(requested@),
                    target_views(found@) =~= before + package_executables(
                        package@.targets.take(t as int),
                    ),
                decreases package.targets.len() - t,
            {
                let target = &package.targets[t];
                proof {
                    let upto = package@.targets.take(t + 1);
                    assert(upto.drop_last() =~= package@.targets.take(t as int));
                    assert(package@.targets[t as int] == target@);
                    assert(upto.last() == target@);
                    assert(metadata@.packages[p as int].targets[t as int].is_resolvable());
                }
                if target.is_binary() {
                    let ghost earlier = found@;
                    let executable = executable_from(target);
                    found.push(executable);
                    assert(target_views(found@) =~= target_views(earlier).push(executable@));
                }
                t += 1;
            }
            assert(package@.targets.take(t as int) =~= package@.targets);
        }
        p += 1;
    }
    found
}

/// Lists the paths of the executables of the packages whose manifest path is
/// exactly `requested`, in metadata order, for profile `build`.
pub fn binaries_from(metadata: &Metadata, requested: &str, build: Build) -> (paths: Vec<String>)
    requires
        metadata@.is_resolvable(requested@),
    ensures
        path_views(paths@) == executable_paths(
            executables(metadata@, requested@),
            metadata@.target_directory,
            build,
        ),
{
    let found = enumerate_executables(metadata, requested);
    let mut paths: Vec<String> = Vec::new();
    let mut i: usize = 0;
    while i < found.len()
        invariant
            i <= found.len(),
            paths@.len() == i,
            forall|j: int|
                0 <= j < i ==> (#[trigger] paths@[j])@ == found@[j]@.path(
                    metadata@.target_directory,
                    build,
                ),
        decreases found.len() - i,
    {
        paths.push(found[i].path(metadata.target_directory.as_str(), build));
        i += 1;
    }
    proof {
        assert(target_views(found@).len() == found@.len());
        assert forall|j: int| 0 <= j < found@.len() implies path_views(paths@)[j]
            == executable_paths(
            executables(metadata@, requested@),
            metadata@.target_directory,
            build,
        )[j] by {
            assert(target_views(found@)[j] == found@[j]@);
        }
        assert(path_views(paths@) =~= executable_paths(
            executables(metadata@, requested@),
            metadata@.target_directory,
            build,
        ));
    }
    paths
}

/// What listing the executables' paths gives: the paths where the metadata
/// was read and is resolvable at `requested`; the error of reading where it
/// was not read; `UnsupportedTarget` where it is not resolvable.
pub open spec fn binaries_of(
    metadata: Result<MetadataView, MetadataError>,
    requested: Seq<char>,
    build: Build,
) -> Result<Seq<Seq<char>>, MetadataError> {
    match metadata {
        Ok(metadata) => if metadata.is_resolvable(requested) {
            Ok(
                executable_paths(
                    executables(metadata, requested),
                    metadata.target_directory,
                    build,
                ),
            )
        } else {
            Err(MetadataError::UnsupportedTarget)
        },
        Err(error) => Err(error),
    }
}

/// The view of the outcome of listing paths.
pub open spec fn paths_view(outcome: Result<Vec<String>, MetadataError>) -> Result<
    Seq<Seq<char>>,
    MetadataError,
> {
    match outcome {
        Ok(paths) => Ok(path_views(paths@)),
        Err(error) => Err(error),
    }
}

/// Lists the paths of the executables of the packages of `metadata` whose
/// manifest path is exactly `requested`, or tells that one of them is of a
/// kind without an executable path.
pub fn binaries_in(metadata: &Metadata, requested: &str, build: Build) -> (outcome: Result<
    Vec<String>,
    MetadataError,
>)
    ensures
        paths_view(outcome) == binaries_of(Ok(metadata@), requested@, build),
{
    if metadata.is_resolvable(requested) {
        Ok(binaries_from(metadata, requested, build))
    } else {
        Err(MetadataError::UnsupportedTarget)
    }
}

/// Query all binaries of the package denoted by the manifest path
/// `requested` in the metadata document `document`.
///
/// The paths of the examples, the benchmarks and the binaries of that
/// package are returned, in the order of the document. Other packages of the
/// same workspace may have binaries, but they are ignored.
pub fn binaries(document: &str, requested: &str, build: Build) -> (outcome: Result<
    Vec<String>,
    MetadataError,
>)
    ensures
        paths_view(outcome) == binaries_of(metadata_in(document@), requested@, build),
{
    match metadata(document) {
        Ok(metadata) => binaries_in(&metadata, requested, build),
        Err(error) => Err(error),
    }
}

/// Why no target could be picked.
#[derive(Debug, Clone, Copy, PartialEq, Eq, Structural)]
pub enum ResolveError {
    /// No target was asked for and there are several to choose from.
    AmbiguousTarget,
    /// The target asked for is not among the candidates, or there are none.
    TargetNotFound,
}

impl ResolveError {
    /// A message for the user.
    pub fn message(&self) -> (text: &'static str)
        ensures
            text@ == match self {
                ResolveError::AmbiguousTarget =>
                    "Multiple possible targets, please specify more precise"@,
                ResolveError::TargetNotFound => "Could not find selected binary"@,
            },
    {
        match self {
            ResolveError::AmbiguousTarget => "Multiple possible targets, please specify more precise",
            ResolveError::TargetNotFound => "Could not find selected binary",
        }
    }
}

/// The target that is wanted: the selector where one is given, else the sole
/// candidate; none where the choice is open.
pub open spec fn wanted(selector: Option<TargetView>, candidates: Seq<TargetView>) -> Option<
    TargetView,
> {
    match selector {
        Some(target) => Some(target),
        None => if candidates.len() == 1 {
            Some(candidates[0])
        } else {
            None
        },
    }
}

/// What picking a target gives: the wanted target where the candidates hold
/// it; `AmbiguousTarget` where none is asked for and there are two or more
/// candidates; `TargetNotFound` otherwise.
pub open spec fn picked(selector: Option<TargetView>, candidates: Seq<TargetView>) -> Result<
    TargetView,
    ResolveError,
> {
    match wanted(selector, candidates) {
        Some(target) => if candidates.contains(target) {
            Ok(target)
        } else {
            Err(ResolveError::TargetNotFound)
        },
        None => if candidates.len() == 0 {
            Err(ResolveError::TargetNotFound)
        } else {
            Err(ResolveError::AmbiguousTarget)
        },
    }
}

/// The view of a selector.
pub open spec fn selector_view(selector: Option<Target>) -> Option<TargetView> {
    match selector {
        Some(target) => Some(target@),
        None => None,
    }
}

/// The view of the outcome of picking.
pub open spec fn outcome_view(outcome: Result<Target, ResolveError>) -> Result<
    TargetView,
    ResolveError,
> {
    match outcome {
        Ok(target) => Ok(target@),
        Err(error) => Err(error),
    }
}

/// The target that the user asks for, if any: a binary before an example,
/// an example before a benchmark.
pub fn specified_target(
    bin: Option<String>,
    example: Option<String>,
    bench: Option<String>,
) -> (selector: Option<Target>)
    ensures
        selector_view(selector) == match (bin, example, bench) {
            (Some(name), _, _) => Some(TargetView::Binary(name@)),
            (None, Some(name), _) => Some(TargetView::Example(name@)),
            (None, None, Some(name)) => Some(TargetView::Benchmark(name@)),
            (None, None, None) => None,
        },
{
    match bin {
        Some(name) => Some(Target::Binary(name)),
        None => match example {
            Some(name) => Some(Target::Example(name)),
            None => match bench {
                Some(name) => Some(Target::Benchmark(name)),
                None => None,
            },
        },
    }
}

/// Looks `target` up among `candidates` by kind and name.
pub fn find(target: &Target, candidates: &Vec<Target>) -> (place: Option<usize>)
    ensures
        match place {
            Some(i) => i < candidates@.len() && candidates@[i as int]@ == target@ && forall|j: int|
                0 <= j < i ==> candidates@[j]@ != target@,
            None => !target_views(candidates@).contains(target@),
        },
{
    let mut i: usize = 0;
    while i < candidates.len()
        invariant
            i <= candidates.len(),
            forall|j: int| 0 <= j < i ==> candidates@[j]@ != target@,
        decreases candidates.len() - i,
    {
        if candidates[i] == *target {
            return Some(i);
        }
        i += 1;
    }
    assert forall|j: int| 0 <= j < target_views(candidates@).len() implies target_views(
        candidates@,
    )[j] != target@ by {}
    None
}

/// Picks the target to act on: the one that `selector` asks for, or, without
/// a selector, the sole candidate. The choice is then looked up among the
/// candidates, so a selector that names no candidate is refused.
pub fn pick_one(selector: Option<Target>, candidates: &Vec<Target>) -> (outcome: Result<
    Target,
    ResolveError,
>)
    ensures
        outcome_view(outcome) == picked(selector_view(selector), target_views(candidates@)),
{
    let target = match selector {
        Some(target) => target,
        None => {
            if candidates.len() == 1 {
                candidates[0].clone()
            } else if candidates.len() == 0 {
                return Err(ResolveError::TargetNotFound);
            } else {
                return Err(ResolveError::AmbiguousTarget);
            }
        },
    };
    assert(wanted(selector_view(selector), target_views(candidates@)) == Some(target@));
    match find(&target, candidates) {
        Some(i) => {
            assert(target_views(candidates@)[i as int] == target@);
            Ok(candidates[i].clone())
        },
        None => Err(ResolveError::TargetNotFound),
    }
}

/// Resolves the executable to act on: lists the executables of the packages
/// at `requested`, picks one by `selector`, and gives it with its path for
/// profile `build`.
pub fn resolve(
    metadata: &Metadata,
    requested: &str,
    build: Build,
    selector: Option<Target>,
) -> (outcome: Result<(Target, String), ResolveError>)
    requires
        metadata@.is_resolvable(requested@),
    ensures
        match picked(selector_view(selector), executables(metadata@, requested@)) {
            Ok(target) => outcome is Ok && outcome->Ok_0.0@ == target && outcome->Ok_0.1@
                == target.path(metadata@.target_directory, build),
            Err(error) => outcome == Err::<(Target, String), ResolveError>(error),
        },
{
    let candidates = enumerate_executables(metadata, requested);
    match pick_one(selector, &candidates) {
        Ok(target) => {
            let path = target.path(metadata.target_directory.as_str(), build);
            Ok((target, path))
        },
        Err(error) => Err(error),
    }
}

/// Packages at other manifest paths contribute nothing: where no package of
/// the first `count` lies at `requested`, none of their executables is listed.
pub proof fn lemma_no_package_no_executables(
    metadata: MetadataView,
    requested: Seq<char>,
    count: nat,
)
    requires
        forall|p: int|
            0 <= p < metadata.packages.len() ==> (#[trigger] metadata.packages[p]).manifest_path
                != requested,
    ensures
        executables_among(metadata, requested, count) == Seq::<TargetView>::empty(),
    decreases count,
{
    if count != 0 && count <= metadata.packages.len() {
        lemma_no_package_no_executables(metadata, requested, (count - 1) as nat);
        assert(metadata.packages[count - 1].manifest_path != requested);
    }
}

/// Sibling packages are excluded: where `requested` is the manifest path of
/// no package, no executable is listed.
pub proof fn lemma_unknown_manifest_lists_nothing(metadata: MetadataView, requested: Seq<char>)
    requires
        forall|p: int|
            0 <= p < metadata.packages.len() ==> (#[trigger] metadata.packages[p]).manifest_path
                != requested,
    ensures
        executables(metadata, requested) == Seq::<TargetView>::empty(),
{
    lemma_no_package_no_executables(metadata, requested, metadata.packages.len());
}

/// Where `requested` is the manifest path of no package, the metadata is
/// resolvable there and no path is listed, whatever the other packages hold.
pub proof fn lemma_unknown_manifest_has_no_binaries(
    metadata: MetadataView,
    requested: Seq<char>,
    build: Build,
)
    requires
        forall|p: int|
            0 <= p < metadata.packages.len() ==> (#[trigger] metadata.packages[p]).manifest_path
                != requested,
    ensures
        metadata.is_resolvable(requested),
        binaries_of(Ok(metadata), requested, build) == Ok::<Seq<Seq<char>>, MetadataError>(
            Seq::empty(),
        ),
{
    lemma_unknown_manifest_lists_nothing(metadata, requested);
    assert(executable_paths(Seq::<TargetView>::empty(), metadata.target_directory, build)
        =~= Seq::<Seq<char>>::empty());
}

/// Without a selector the number of candidates decides: a sole candidate is
/// picked, none gives `TargetNotFound`, two or more give `AmbiguousTarget`.
pub proof fn lemma_pick_without_selector(candidates: Seq<TargetView>)
    ensures
        candidates.len() == 1 ==> picked(None, candidates) == Ok::<TargetView, ResolveError>(
            candidates[0],
        ),
        candidates.len() == 0 ==> picked(None, candidates) == Err::<TargetView, ResolveError>(
            ResolveError::TargetNotFound,
        ),
        candidates.len() >= 2 ==> picked(None, candidates) == Err::<TargetView, ResolveError>(
            ResolveError::AmbiguousTarget,
        ),
{
    if candidates.len() == 1 {
        assert(candidates.contains(candidates[0]));
    }
}

/// Targets of which none is compiled to an executable give no executable.
pub proof fn lemma_no_binary_no_executables(targets: Seq<PackageTargetView>)
    requires
        forall|i: int| 0 <= i < targets.len() ==> !(#[trigger] targets[i]).is_binary(),
    ensures
        package_executables(targets) == Seq::<TargetView>::empty(),
    decreases targets.len(),
{
    if targets.len() > 0 {
        assert(!targets[targets.len() - 1].is_binary());
        lemma_no_binary_no_executables(targets.drop_last());
    }
}

/// Targets of which exactly one, at `place`, is compiled to an executable
/// give that one executable.
pub proof fn lemma_sole_binary(targets: Seq<PackageTargetView>, place: int)
    requires
        0 <= place < targets.len(),
        forall|i: int| 0 <= i < targets.len() ==> ((#[trigger] targets[i]).is_binary() <==> i == place),
    ensures
        package_executables(targets) == seq![executable_of(targets[place])],
    decreases targets.len(),
{
    let shorter = targets.drop_last();
    assert(targets[targets.len() - 1].is_binary() <==> targets.len() - 1 == place);
    if place == targets.len() - 1 {
        assert forall|i: int| 0 <= i < shorter.len() implies !(#[trigger] shorter[i]).is_binary() by {
            assert(shorter[i] == targets[i]);
        }
        lemma_no_binary_no_executables(shorter);
        assert(Seq::<TargetView>::empty().push(executable_of(targets[place]))
            =~= seq![executable_of(targets[place])]);
    } else {
        assert forall|i: int| 0 <= i < shorter.len() implies ((#[trigger] shorter[i]).is_binary()
            <==> i == place) by {
            assert(shorter[i] == targets[i]);
        }
        lemma_sole_binary(shorter, place);
    }
}

/// Where exactly one package, at `place`, lies at `requested`, the
/// executables among the first `count` packages are those of that package
/// once it is among them, and none before.
pub proof fn lemma_sole_package(
    metadata: MetadataView,
    requested: Seq<char>,
    place: int,
    count: nat,
)
    requires
        0 <= place < metadata.packages.len(),
        count <= metadata.packages.len(),
        forall|p: int|
            0 <= p < metadata.packages.len() ==> ((#[trigger] metadata.packages[p]).manifest_path
                == requested <==> p == place),
    ensures
        executables_among(metadata, requested, count) == if count <= place {
            Seq::<TargetView>::empty()
        } else {
            package_executables(metadata.packages[place].targets)
        },
    decreases count,
{
    if count > 0 {
        lemma_sole_package(metadata, requested, place, (count - 1) as nat);
        assert(metadata.packages[count - 1].manifest_path == requested <==> count - 1 == place);
        if count - 1 == place {
            assert(Seq::<TargetView>::empty() + package_executables(
                metadata.packages[place].targets,
            ) =~= package_executables(metadata.packages[place].targets));
        }
    }
}

/// Where exactly one package lies at `requested` and exactly one of its
/// targets is compiled to an executable, that target is the only candidate,
/// and it is picked without a selector.
pub proof fn lemma_sole_executable_is_picked(
    metadata: MetadataView,
    requested: Seq<char>,
    package: int,
    target: int,
)
    requires
        0 <= package < metadata.packages.len(),
        forall|p: int|
            0 <= p < metadata.packages.len() ==> ((#[trigger] metadata.packages[p]).manifest_path
                == requested <==> p == package),
        0 <= target < metadata.packages[package].targets.len(),
        forall|i: int|
            0 <= i < metadata.packages[package].targets.len() ==> ((
            #[trigger] metadata.packages[package].targets[i]).is_binary() <==> i == target),
    ensures
        executables(metadata, requested) == seq![
            executable_of(metadata.packages[package].targets[target]),
        ],
        picked(None, executables(metadata, requested)) == Ok::<TargetView, ResolveError>(
            executable_of(metadata.packages[package].targets[target]),
        ),
{
    lemma_sole_package(metadata, requested, package, metadata.packages.len());
    lemma_sole_binary(metadata.packages[package].targets, target);
    let candidates = executables(metadata, requested);
    assert(candidates.len() == 1);
    assert(candidates.contains(candidates[0]));
}

/// With a selector the candidates decide: the selected target is picked where
/// it is among them, however many there are, and is not found otherwise.
pub proof fn lemma_pick_with_selector(target: TargetView, candidates: Seq<TargetView>)
    ensures
        candidates.contains(target) ==> picked(Some(target), candidates) == Ok::<
            TargetView,
            ResolveError,
        >(target),
        !candidates.contains(target) ==> picked(Some(target), candidates) == Err::<
            TargetView,
            ResolveError,
        >(ResolveError::TargetNotFound),
{
}

/// Whatever is picked is one of the candidates.
pub proof fn lemma_picked_is_candidate(
    selector: Option<TargetView>,
    candidates: Seq<TargetView>,
)
    ensures
        picked(selector, candidates) matches Ok(target) ==> candidates.contains(target),
{
}

/// Where the build-output root is not empty and does not end in a separator,
/// and the target's name is not empty and does not start with one, the
/// executable lies at root, profile directory, the directory of the kind
/// where it has one, and name, each parted by one separator.
pub proof fn lemma_path_layout(target: TargetView, target_directory: Seq<char>, build: Build)
    requires
        target_directory.len() > 0,
        target_directory.last() != '/',
        target.name().len() > 0,
        target.name()[0] != '/',
    ensures
        target.path(target_directory, build) == match target {
            TargetView::Binary(name) => target_directory + "/"@ + build.dir_name() + "/"@ + name,
            TargetView::Example(name) => target_directory + "/"@ + build.dir_name()
                + "/examples/"@ + name,
            TargetView::Benchmark(name) => target_directory + "/"@ + build.dir_name()
                + "/benches/"@ + name,
        },
{
    reveal_strlit("/");
    reveal_strlit("debug");
    reveal_strlit("release");
    reveal_strlit("examples");
    reveal_strlit("benches");
    reveal_strlit("/examples/");
    reveal_strlit("/benches/");
    let profile = joined(target_directory, build.dir_name());
    assert(profile =~= target_directory + "/"@ + build.dir_name());
    assert(profile.last() != '/');
    let directory = joined(profile, target.subdirectory());
    match target {
        TargetView::Binary(name) => {
            assert(directory =~= profile + "/"@);
            assert(joined(directory, name) =~= target_directory + "/"@ + build.dir_name() + "/"@
                + name);
        },
        TargetView::Example(name) => {
            assert(directory =~= profile + "/"@ + "examples"@);
            assert(joined(directory, name) =~= target_directory + "/"@ + build.dir_name()
                + "/examples/"@ + name);
        },
        TargetView::Benchmark(name) => {
            assert(directory =~= profile + "/"@ + "benches"@);
            assert(joined(directory, name) =~= target_directory + "/"@ + build.dir_name()
                + "/benches/"@ + name);
        },
    }
}

} // verus!
