//! What holds of every run of the pipeline.
use crate::emit::{lemma_ignore_marker, marked_ignored, StubView};
use crate::ignores::ignored;
use crate::listing::{lemma_sorted_modules, listing_differs, listing_text};
use crate::naming::{
    artifact_path, excluded, expected_output_path, is_fixture, output_extension, stem,
};
use crate::pipeline::{
    compiled, declared, emitted, generation, stub_of, BuildError, GenerationView, ObservationView,
};
use crate::text::name_order;
use vstd::prelude::*;
use vstd::relations::sorted_by;
use vstd::seq_lib::{lemma_multiset_commutative, to_multiset_build, to_multiset_remove};
use vstd::utf8::encode_utf8;

verus! {

/// The stubs of two runs of observations, one after the other, are the stubs
/// of the first followed by the stubs of the second.
pub proof fn lemma_emitted_concat(
    first: Seq<ObservationView>,
    second: Seq<ObservationView>,
    ignores: Seq<Seq<char>>,
)
    ensures
        emitted(first + second, ignores) == emitted(first, ignores) + emitted(second, ignores),
    decreases second.len(),
{
    if second.len() == 0 {
        assert(first + second =~= first);
        assert(emitted(first, ignores) + emitted(second, ignores) =~= emitted(first, ignores));
    } else {
        assert((first + second).drop_last() =~= first + second.drop_last());
        lemma_emitted_concat(first, second.drop_last(), ignores);
        assert(emitted(first + second, ignores) =~= emitted(first, ignores) + emitted(
            second,
            ignores,
        ));
    }
}

/// One observation yields its stub, or nothing.
pub proof fn lemma_emitted_single(seen: ObservationView, ignores: Seq<Seq<char>>)
    ensures
        emitted(seq![seen], ignores) == match stub_of(seen, ignores) {
            Some(stub) => seq![stub],
            None => Seq::empty(),
        },
{
    let one = seq![seen];
    assert(one.drop_last() =~= Seq::<ObservationView>::empty());
    assert(emitted(one.drop_last(), ignores) =~= Seq::<StubView>::empty());
    match stub_of(seen, ignores) {
        Some(stub) => {
            assert(emitted(one, ignores) =~= seq![stub]);
        },
        None => {},
    }
}

/// The stubs of a run, split at one observation.
proof fn lemma_emitted_split(found: Seq<ObservationView>, ignores: Seq<Seq<char>>, i: int)
    requires
        0 <= i < found.len(),
    ensures
        emitted(found, ignores) == emitted(found.take(i), ignores) + emitted(
            seq![found[i]],
            ignores,
        ) + emitted(found.skip(i + 1), ignores),
        emitted(found.remove(i), ignores) == emitted(found.take(i), ignores) + emitted(
            found.skip(i + 1),
            ignores,
        ),
{
    let left = found.take(i);
    let middle = seq![found[i]];
    let right = found.skip(i + 1);
    assert(found =~= (left + middle) + right);
    assert(found.remove(i) =~= left + right);
    lemma_emitted_concat(left, middle, ignores);
    lemma_emitted_concat(left + middle, right, ignores);
    lemma_emitted_concat(left, right, ignores);
}

/// A run fails exactly when no observation yields a stub. So a run over no
/// observation at all fails, and one fixture with both companions on disk is
/// enough for the run to go through.
pub proof fn lemma_run_fails_without_stub(found: Seq<ObservationView>, ignores: Seq<Seq<char>>)
    ensures
        generation(found, ignores) is Err <==> forall|i: int|
            0 <= i < found.len() ==> stub_of(#[trigger] found[i], ignores) is None,
        found.len() == 0 ==> generation(found, ignores) == Err::<GenerationView, BuildError>(
            BuildError::NoModules,
        ),
    decreases found.len(),
{
    if found.len() > 0 {
        let before = found.drop_last();
        lemma_run_fails_without_stub(before, ignores);
        if generation(found, ignores) is Err {
            assert forall|i: int| 0 <= i < found.len() implies stub_of(
                #[trigger] found[i],
                ignores,
            ) is None by {
                if i < before.len() {
                    assert(before[i] == found[i]);
                }
            }
        } else if stub_of(found.last(), ignores) is None {
            let i = choose|i: int| 0 <= i < before.len() && !(stub_of(
                #[trigger] before[i],
                ignores,
            ) is None);
            assert(before[i] == found[i]);
        }
    }
}

/// A fixture whose artifact or expected output is missing leaves no trace: the
/// run writes the stubs and the listing that it would write had the fixture
/// not been discovered, and it fails only if it would fail then.
pub proof fn lemma_unpaired_fixture_adds_nothing(
    found: Seq<ObservationView>,
    ignores: Seq<Seq<char>>,
    i: int,
)
    requires
        0 <= i < found.len(),
        !found[i].artifact_found || !found[i].output_found,
    ensures
        emitted(found, ignores) == emitted(found.remove(i), ignores),
        generation(found, ignores) == generation(found.remove(i), ignores),
{
    lemma_emitted_split(found, ignores, i);
    lemma_emitted_single(found[i], ignores);
    assert(emitted(found, ignores) =~= emitted(found.remove(i), ignores));
}

/// A fixture whose artifact and expected output are on disk yields exactly one
/// stub, at its place in the order of discovery, and the listing declares its
/// module once more than the modules of the other files.
pub proof fn lemma_paired_fixture_is_emitted_once(
    found: Seq<ObservationView>,
    ignores: Seq<Seq<char>>,
    i: int,
)
    requires
        0 <= i < found.len(),
        is_fixture(found[i].file),
        !excluded(found[i].file),
        found[i].artifact_found,
        found[i].output_found,
    ensures
        stub_of(found[i], ignores) is Some,
        generation(found, ignores) matches Ok(g) && {
            let stub = stub_of(found[i], ignores)->Some_0;
            &&& g.stubs == emitted(found.take(i), ignores).push(stub) + emitted(
                found.skip(i + 1),
                ignores,
            )
            &&& g.stubs.len() == emitted(found.remove(i), ignores).len() + 1
            &&& g.modules.to_multiset() == declared(
                emitted(found.remove(i), ignores),
            ).to_multiset().insert(stub.module)
        },
{
    let stub = stub_of(found[i], ignores)->Some_0;
    let left = emitted(found.take(i), ignores);
    let right = emitted(found.skip(i + 1), ignores);
    lemma_emitted_split(found, ignores, i);
    lemma_emitted_single(found[i], ignores);
    assert(emitted(found, ignores) =~= left.push(stub) + right);
    lemma_sorted_modules(declared(emitted(found, ignores)));
    assert(declared(left.push(stub) + right) =~= (declared(left).push(stub.module)) + declared(
        right,
    ));
    assert(declared(left + right) =~= declared(left) + declared(right));
    lemma_multiset_commutative(declared(left).push(stub.module), declared(right));
    lemma_multiset_commutative(declared(left), declared(right));
    to_multiset_build(declared(left), stub.module);
    assert(declared(left).to_multiset().insert(stub.module).add(declared(right).to_multiset())
        =~= declared(left).to_multiset().add(declared(right).to_multiset()).insert(stub.module));
}

/// The modules of a run, as a multiset, are those of the run without one
/// observation and those of that observation.
proof fn lemma_modules_split(found: Seq<ObservationView>, ignores: Seq<Seq<char>>, i: int)
    requires
        0 <= i < found.len(),
    ensures
        declared(emitted(found, ignores)).to_multiset() == declared(
            emitted(found.remove(i), ignores),
        ).to_multiset().add(declared(emitted(seq![found[i]], ignores)).to_multiset()),
{
    let left = declared(emitted(found.take(i), ignores));
    let middle = declared(emitted(seq![found[i]], ignores));
    let right = declared(emitted(found.skip(i + 1), ignores));
    lemma_emitted_split(found, ignores, i);
    assert(declared(emitted(found, ignores)) =~= (left + middle) + right);
    assert(declared(emitted(found.remove(i), ignores)) =~= left + right);
    lemma_multiset_commutative(left + middle, right);
    lemma_multiset_commutative(left, middle);
    lemma_multiset_commutative(left, right);
    assert(left.to_multiset().add(middle.to_multiset()).add(right.to_multiset())
        =~= left.to_multiset().add(right.to_multiset()).add(middle.to_multiset()));
}

/// The modules of a run, as a multiset, do not depend on the order of the
/// observations.
pub proof fn lemma_modules_ignore_discovery_order(
    one: Seq<ObservationView>,
    other: Seq<ObservationView>,
    ignores: Seq<Seq<char>>,
)
    requires
        one.to_multiset() == other.to_multiset(),
    ensures
        declared(emitted(one, ignores)).to_multiset() == declared(
            emitted(other, ignores),
        ).to_multiset(),
    decreases one.len(),
{
    one.to_multiset_ensures();
    other.to_multiset_ensures();
    if one.len() == 0 {
        assert(other.len() == 0);
        assert(one =~= other);
    } else {
        let last = one.len() - 1;
        let seen = one[last];
        assert(one.contains(seen));
        assert(other.to_multiset().count(seen) > 0);
        assert(other.contains(seen));
        let at = choose|at: int| 0 <= at < other.len() && other[at] == seen;
        let one_rest = one.remove(last);
        let other_rest = other.remove(at);
        to_multiset_remove(one, last);
        to_multiset_remove(other, at);
        lemma_modules_ignore_discovery_order(one_rest, other_rest, ignores);
        lemma_modules_split(one, ignores, last);
        lemma_modules_split(other, ignores, at);
    }
}

/// The listing declares the modules of the emitted stubs, each as often as a
/// stub has it, sorted by name.
pub proof fn lemma_listing_is_sorted(found: Seq<ObservationView>, ignores: Seq<Seq<char>>)
    ensures
        generation(found, ignores) matches Ok(g) ==> {
            &&& sorted_by(g.modules, name_order())
            &&& g.modules.to_multiset() == declared(g.stubs).to_multiset()
            &&& g.modules.len() == g.stubs.len()
            &&& g.listing == listing_text(g.modules)
        },
{
    lemma_sorted_modules(declared(emitted(found, ignores)));
}

/// The listing does not depend on the order in which the files were
/// discovered: two runs over the same observations, in whatever order, fail
/// together or declare the same modules in the same order.
pub proof fn lemma_listing_ignores_discovery_order(
    one: Seq<ObservationView>,
    other: Seq<ObservationView>,
    ignores: Seq<Seq<char>>,
)
    requires
        one.to_multiset() == other.to_multiset(),
    ensures
        match (generation(one, ignores), generation(other, ignores)) {
            (Ok(g), Ok(h)) => g.modules == h.modules && g.listing == h.listing,
            (Err(e), Err(f)) => e == f,
            _ => false,
        },
{
    let modules = declared(emitted(one, ignores));
    let others = declared(emitted(other, ignores));
    lemma_modules_ignore_discovery_order(one, other, ignores);
    modules.to_multiset_ensures();
    others.to_multiset_ensures();
    lemma_sorted_modules(modules);
    lemma_sorted_modules(others);
}

/// Regeneration is idempotent for the listing: whatever the listing file held
/// before a run, after the run has brought it up to date a second run over
/// the same observations finds nothing to write. The stubs of the second run
/// are those of the first: stubs are written on every run.
pub proof fn lemma_second_run_keeps_listing(
    found: Seq<ObservationView>,
    ignores: Seq<Seq<char>>,
    current: Seq<u8>,
)
    requires
        generation(found, ignores) is Ok,
    ensures
        ({
            let listing = generation(found, ignores)->Ok_0.listing;
            let after_first_run = if listing_differs(current, listing) {
                encode_utf8(listing)
            } else {
                current
            };
            !listing_differs(after_first_run, listing)
        }),
{
}

/// A stub carries the mark of a test that is expected to fail exactly when
/// the ignore list holds its module, case aside.
pub proof fn lemma_ignored_module_is_marked(
    file: Seq<char>,
    ignores: Seq<Seq<char>>,
    artifact_found: bool,
    output_found: bool,
)
    ensures
        compiled(file, ignores, artifact_found, output_found) matches Some(stub) ==> (
        marked_ignored(stub.contents) <==> ignored(ignores, stem(file))),
{
    if let Some(stub) = compiled(file, ignores, artifact_found, output_found) {
        let marked = ignored(ignores, stem(file));
        let module = stub.module;
        let artifact = artifact_path(stem(file));
        let expected_output = expected_output_path(stem(file), output_extension(file));
        lemma_ignore_marker(module, artifact, expected_output, marked);
    }
}

} // verus!
