//! The aggregate listing: the file that declares every generated test module.
//!
//! The listing holds a banner, the declaration of the hand-maintained support
//! module, and one declaration per module, sorted by module name. It is
//! written only where it differs from what the file holds.
use crate::text::{bytes_eq, lemma_name_order_total, name_le, name_order, str_le};
use vstd::prelude::*;
use vstd::relations::{sorted_by, total_ordering};
use vstd::seq_lib::{lemma_sorted_unique, to_multiset_build, to_multiset_insert};
use vstd::string::StringExecFns;
use vstd::utf8::encode_utf8;

verus! {

/// First lines of the aggregate listing.
pub const BANNER: &'static str =
    "// Rust test file autogenerated with cargo build (build/emtests.rs).\n// Please do NOT modify it by hand, as it will be reseted on next build.\n";

/// Declaration of the support module, which is kept by hand.
pub const COMMON: &'static str =
    "// The _common module is not autogenerated, as it provides common macros for the emtests\n#[macro_use]\nmod _common;";

/// Module names in the order of the listing.
pub open spec fn sorted_modules(modules: Seq<Seq<char>>) -> Seq<Seq<char>> {
    modules.sort_by(name_order())
}

/// One declaration line per module, in the order given.
pub open spec fn declarations(modules: Seq<Seq<char>>) -> Seq<char>
    decreases modules.len(),
{
    if modules.len() == 0 {
        Seq::empty()
    } else {
        declarations(modules.drop_last()) + "mod "@ + modules.last() + ";\n"@
    }
}

/// The text of the listing: banner, support module, declarations, each
/// followed by a line feed.
pub open spec fn listing_text(modules: Seq<Seq<char>>) -> Seq<char> {
    BANNER@ + "\n"@ + COMMON@ + "\n"@ + declarations(modules)
}

/// Whether the listing file has to be written: whether what it holds differs
/// in any byte from the listing.
pub open spec fn listing_differs(current: Seq<u8>, listing: Seq<char>) -> bool {
    current != encode_utf8(listing)
}

/// The sorted names are the names given, each as often as it was given, in
/// ascending order; and no other sequence is.
pub proof fn lemma_sorted_modules(modules: Seq<Seq<char>>)
    ensures
        sorted_by(sorted_modules(modules), name_order()),
        sorted_modules(modules).to_multiset() == modules.to_multiset(),
        sorted_modules(modules).len() == modules.len(),
        forall|other: Seq<Seq<char>>|
            sorted_by(other, name_order()) && other.to_multiset() == modules.to_multiset()
                ==> other == sorted_modules(modules),
{
    lemma_name_order_total();
    modules.lemma_sort_by_ensures(name_order());
    let sorted = sorted_modules(modules);
    sorted.to_multiset_ensures();
    modules.to_multiset_ensures();
    assert forall|other: Seq<Seq<char>>|
        sorted_by(other, name_order()) && other.to_multiset()
            == modules.to_multiset() implies other == sorted by {
        lemma_sorted_unique(other, sorted, name_order());
    }
}

/// Sorts module names for the listing.
pub fn sort_modules(modules: &Vec<String>) -> (sorted: Vec<String>)
    ensures
        sorted.deep_view() == sorted_modules(modules.deep_view()),
{
    let ghost names = modules.deep_view();
    let mut sorted: Vec<String> = Vec::new();
    let mut i: usize = 0;
    proof {
        lemma_name_order_total();
        assert(sorted.deep_view() =~= names.take(0));
    }
    while i < modules.len()
        invariant
            i <= modules.len(),
            names == modules.deep_view(),
            total_ordering(name_order()),
            sorted_by(sorted.deep_view(), name_order()),
            sorted.deep_view().to_multiset() == names.take(i as int).to_multiset(),
        decreases modules.len() - i,
    {
        let name = modules[i].clone();
        let ghost before = sorted.deep_view();
        let mut at: usize = 0;
        while at < sorted.len() && str_le(sorted[at].as_str(), name.as_str())
            invariant
                at <= sorted.len(),
                before == sorted.deep_view(),
                forall|j: int| 0 <= j < at ==> name_le(#[trigger] before[j], name@),
            decreases sorted.len() - at,
        {
            at += 1;
        }
        sorted.insert(at, name);
        proof {
            let after = sorted.deep_view();
            assert(after =~= before.insert(at as int, name@));
            assert forall|j: int, k: int| 0 <= j < k < after.len() implies #[trigger] name_order()(
                after[j],
                after[k],
            ) by {
                if k < at {
                    assert(name_order()(before[j], before[k]));
                } else if k == at {
                    assert(name_le(before[j], name@));
                } else if j == at {
                    // `name` sorts before `before[at]`, and that before what follows it.
                    assert(!name_le(before[at as int], name@));
                    assert(name_order()(name@, before[at as int]) || name_order()(
                        before[at as int],
                        name@,
                    ));
                    if k - 1 > at {
                        assert(name_order()(before[at as int], before[k - 1]));
                    }
                    assert(name_order()(name@, before[at as int]) && name_order()(
                        before[at as int],
                        before[k - 1],
                    ) ==> name_order()(name@, before[k - 1]));
                } else if j < at {
                    assert(name_order()(before[j], before[k - 1]));
                } else {
                    assert(name_order()(before[j - 1], before[k - 1]));
                }
            }
            to_multiset_insert(before, at as int, name@);
            assert(names.take(i + 1) =~= names.take(i as int).push(name@));
            to_multiset_build(names.take(i as int), name@);
        }
        i += 1;
    }
    proof {
        assert(names.take(i as int) =~= names);
        lemma_sorted_modules(names);
    }
    sorted
}

/// Renders the listing that declares the given modules, in the order given.
pub fn render_listing(modules: &Vec<String>) -> (text: String)
    ensures
        text@ == listing_text(modules.deep_view()),
{
    let ghost names = modules.deep_view();
    let mut text = String::from_str(BANNER);
    text.append("\n");
    text.append(COMMON);
    text.append("\n");
    let mut i: usize = 0;
    proof {
        assert(names.take(0) =~= Seq::<Seq<char>>::empty());
        assert(text@ =~= listing_text(names.take(0)));
    }
    while i < modules.len()
        invariant
            i <= modules.len(),
            names == modules.deep_view(),
            text@ == listing_text(names.take(i as int)),
        decreases modules.len() - i,
    {
        proof {
            assert(names.take(i + 1).drop_last() =~= names.take(i as int));
        }
        text.append("mod ");
        text.append(modules[i].as_str());
        text.append(";\n");
        proof {
            assert(text@ =~= listing_text(names.take(i + 1)));
        }
        i += 1;
    }
    proof {
        assert(names.take(i as int) =~= names);
    }
    text
}

/// Whether the listing file, which holds `current`, has to be written to hold
/// `listing`.
pub fn listing_changed(current: &[u8], listing: &str) -> (changed: bool)
    ensures
        changed == listing_differs(current@, listing@),
{
    !bytes_eq(current, listing.as_bytes())
}

} // verus!
