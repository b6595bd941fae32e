//! The pipeline: from what was found on disk to what has to be written.
//!
//! Discovery and probing of the file system are the caller's. The caller
//! reports one `Observation` per discovered file; `build` turns the
//! observations into the test stubs and the aggregate listing.
use crate::emit::{emit, stub_for, StubView, TestStub};
use crate::ignores::{contains_name, fold_names, folded};
use crate::listing::{listing_text, render_listing, sort_modules, sorted_modules};
use crate::naming::{excluded, is_excluded, is_fixture, output_extension, stem, FixturePath};
use crate::text::{lowercase, to_lowercase};
use vstd::prelude::*;
use vstd::string::StringExecFns;

verus! {

/// Why a discovered file yields no test.
#[derive(Debug, Clone, Copy, PartialEq, Eq)]
pub enum Skipped {
    /// The path does not name a fixture.
    NotFixture,
    /// The compiled artifact of the fixture is not on disk.
    MissingArtifact,
    /// The expected-output file of the fixture is not on disk.
    MissingOutput,
}

/// Why a file yields no test, if it yields none. A missing artifact is
/// reported before a missing expected output.
pub open spec fn skip_reason(file: Seq<char>, artifact_found: bool, output_found: bool) -> Option<
    Skipped,
> {
    if !is_fixture(file) {
        Some(Skipped::NotFixture)
    } else if !artifact_found {
        Some(Skipped::MissingArtifact)
    } else if !output_found {
        Some(Skipped::MissingOutput)
    } else {
        None
    }
}

/// The stub that a file yields, given the ignore list in lower case.
pub open spec fn compiled_with(
    file: Seq<char>,
    lowered: Seq<Seq<char>>,
    artifact_found: bool,
    output_found: bool,
) -> Option<StubView> {
    if skip_reason(file, artifact_found, output_found) is None {
        let module = lowercase(stem(file));
        Some(stub_for(stem(file), module, output_extension(file), lowered.contains(module)))
    } else {
        None
    }
}

/// The stub that a file yields: none unless it is a fixture with both
/// companions on disk; else the stub of its module, marked as expected to
/// fail where the ignore list holds the module.
pub open spec fn compiled(
    file: Seq<char>,
    ignores: Seq<Seq<char>>,
    artifact_found: bool,
    output_found: bool,
) -> Option<StubView> {
    compiled_with(file, folded(ignores), artifact_found, output_found)
}

/// Pairs a file with its companions: gives the module name of a fixture whose
/// artifact and expected output were found, and else the reason why the file
/// is skipped.
pub fn resolve(file: &str, artifact_found: bool, output_found: bool) -> (r: Result<String, Skipped>)
    ensures
        match r {
            Ok(module_name) => skip_reason(file@, artifact_found, output_found) is None
                && module_name@ == stem(file@),
            Err(reason) => skip_reason(file@, artifact_found, output_found) == Some(reason),
        },
{
    match FixturePath::parse(file) {
        None => Err(Skipped::NotFixture),
        Some(fixture) => {
            if !artifact_found {
                Err(Skipped::MissingArtifact)
            } else if !output_found {
                Err(Skipped::MissingOutput)
            } else {
                Ok(String::from_str(fixture.module_name()))
            }
        },
    }
}

fn compile_with(file: &str, lowered: &Vec<String>, artifact_found: bool, output_found: bool) -> (r:
    Option<TestStub>)
    ensures
        r.deep_view() == compiled_with(file@, lowered.deep_view(), artifact_found, output_found),
{
    match FixturePath::parse(file) {
        None => None,
        Some(fixture) => {
            if !artifact_found || !output_found {
                None
            } else {
                let module = to_lowercase(fixture.module_name());
                let ignored = contains_name(lowered, module.as_str());
                Some(
                    emit(
                        fixture.module_name(),
                        module.as_str(),
                        fixture.output_extension(),
                        ignored,
                    ),
                )
            }
        },
    }
}

/// Runs the pipeline on one file: resolves it and, where it is paired, emits
/// its test stub.
pub fn compile(file: &str, ignores: &Vec<String>, artifact_found: bool, output_found: bool) -> (r:
    Option<TestStub>)
    ensures
        r.deep_view() == compiled(file@, ignores.deep_view(), artifact_found, output_found),
{
    let lowered = fold_names(ignores);
    compile_with(file, &lowered, artifact_found, output_found)
}

/// What the caller found on disk for one discovered file.
#[derive(Debug, Clone, PartialEq, Eq)]
pub struct Observation {
    /// The path of the discovered file.
    pub file: String,
    /// Whether the compiled artifact of the fixture is on disk.
    pub artifact_found: bool,
    /// Whether the expected-output file of the fixture is on disk.
    pub output_found: bool,
}

/// What an `Observation` holds.
pub struct ObservationView {
    pub file: Seq<char>,
    pub artifact_found: bool,
    pub output_found: bool,
}

impl View for Observation {
    type V = ObservationView;

    open spec fn view(&self) -> ObservationView {
        ObservationView {
            file: self.file@,
            artifact_found: self.artifact_found,
            output_found: self.output_found,
        }
    }
}

impl DeepView for Observation {
    type V = ObservationView;

    open spec fn deep_view(&self) -> ObservationView {
        self@
    }
}

/// What a run has to write.
#[derive(Debug, Clone, PartialEq, Eq)]
pub struct Generation {
    /// The test stubs, in the order of discovery. Each is written, whatever
    /// its file holds.
    pub stubs: Vec<TestStub>,
    /// The modules that the listing declares, in its order.
    pub modules: Vec<String>,
    /// The text of the aggregate listing.
    pub listing: String,
}

/// What a `Generation` holds.
pub struct GenerationView {
    pub stubs: Seq<StubView>,
    pub modules: Seq<Seq<char>>,
    pub listing: Seq<char>,
}

impl View for Generation {
    type V = GenerationView;

    open spec fn view(&self) -> GenerationView {
        GenerationView {
            stubs: self.stubs.deep_view(),
            modules: self.modules.deep_view(),
            listing: self.listing@,
        }
    }
}

/// Why a run is given up.
#[derive(Debug, Clone, Copy, PartialEq, Eq)]
pub enum BuildError {
    /// No discovered file yields a test.
    NoModules,
}

/// The stub that an observation yields. An excluded file yields none.
pub open spec fn stub_of(seen: ObservationView, ignores: Seq<Seq<char>>) -> Option<StubView> {
    if excluded(seen.file) {
        None
    } else {
        compiled(seen.file, ignores, seen.artifact_found, seen.output_found)
    }
}

/// The stubs that a run emits: the stub of each observation that yields one,
/// in the order of the observations.
pub open spec fn emitted(found: Seq<ObservationView>, ignores: Seq<Seq<char>>) -> Seq<StubView>
    decreases found.len(),
{
    if found.len() == 0 {
        Seq::empty()
    } else {
        let before = emitted(found.drop_last(), ignores);
        match stub_of(found.last(), ignores) {
            Some(stub) => before.push(stub),
            None => before,
        }
    }
}

/// The module names of a sequence of stubs, one for one.
pub open spec fn declared(stubs: Seq<StubView>) -> Seq<Seq<char>> {
    stubs.map_values(|stub: StubView| stub.module)
}

/// What a run has to write: the emitted stubs, and the listing of their
/// modules in sorted order. A run that emits no stub fails.
pub open spec fn generation(found: Seq<ObservationView>, ignores: Seq<Seq<char>>) -> Result<
    GenerationView,
    BuildError,
> {
    let stubs = emitted(found, ignores);
    if stubs.len() == 0 {
        Err(BuildError::NoModules)
    } else {
        let modules = sorted_modules(declared(stubs));
        Ok(GenerationView { stubs: stubs, modules: modules, listing: listing_text(modules) })
    }
}

/// Runs the pipeline on every discovered file and aggregates the modules.
pub fn build(found: &Vec<Observation>, ignores: &Vec<String>) -> (r: Result<Generation, BuildError>)
    ensures
        match r {
            Ok(g) => generation(found.deep_view(), ignores.deep_view()) == Ok::<
                GenerationView,
                BuildError,
            >(g@),
            Err(e) => generation(found.deep_view(), ignores.deep_view()) == Err::<
                GenerationView,
                BuildError,
            >(e),
        },
{
    let ghost seen = found.deep_view();
    let ghost names = ignores.deep_view();
    let lowered = fold_names(ignores);
    let mut stubs: Vec<TestStub> = Vec::new();
    let mut modules: Vec<String> = Vec::new();
    let mut i: usize = 0;
    proof {
        assert(stubs.deep_view() =~= emitted(seen.take(0), names));
        assert(modules.deep_view() =~= declared(stubs.deep_view()));
    }
    while i < found.len()
        invariant
            i <= found.len(),
            seen == found.deep_view(),
            names == ignores.deep_view(),
            lowered.deep_view() == folded(names),
            stubs.deep_view() == emitted(seen.take(i as int), names),
            modules.deep_view() == declared(stubs.deep_view()),
        decreases found.len() - i,
    {
        let ghost stubs_before = stubs.deep_view();
        let ghost modules_before = modules.deep_view();
        proof {
            assert(seen.take(i + 1).drop_last() =~= seen.take(i as int));
            assert(seen.take(i + 1).last() == found[i as int]@);
        }
        if !is_excluded(found[i].file.as_str()) {
            match compile_with(
                found[i].file.as_str(),
                &lowered,
                found[i].artifact_found,
                found[i].output_found,
            ) {
                Some(stub) => {
                    modules.push(stub.module.clone());
                    stubs.push(stub);
                    proof {
                        assert(stubs.deep_view() =~= stubs_before.push(stub@));
                        assert(modules.deep_view() =~= modules_before.push(stub@.module));
                        assert(modules.deep_view() =~= declared(stubs.deep_view()));
                    }
                },
                None => {},
            }
        }
        i += 1;
    }
    proof {
        assert(seen.take(i as int) =~= seen);
    }
    if stubs.len() == 0 {
        return Err(BuildError::NoModules);
    }
    let sorted = sort_modules(&modules);
    let listing = render_listing(&sorted);
    Ok(Generation { stubs, modules: sorted, listing })
}

} // verus!
