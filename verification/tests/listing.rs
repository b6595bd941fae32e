use emtests::listing::{listing_changed, render_listing, sort_modules, BANNER, COMMON};

fn names(list: &[&str]) -> Vec<String> {
    list.iter().map(|s| s.to_string()).collect()
}

#[test]
fn listing_of_two_modules() {
    assert_eq!(
        render_listing(&names(&["env", "puts"])),
        "// Rust test file autogenerated with cargo build (build/emtests.rs).
// Please do NOT modify it by hand, as it will be reseted on next build.

// The _common module is not autogenerated, as it provides common macros for the emtests
#[macro_use]
mod _common;
mod env;
mod puts;
"
    );
}

#[test]
fn listing_is_header_and_one_line_per_module() {
    let text = render_listing(&names(&["a", "b", "c"]));
    assert_eq!(text, format!("{}\n{}\nmod a;\nmod b;\nmod c;\n", BANNER, COMMON));
}

#[test]
fn listing_without_modules_is_the_header() {
    assert_eq!(render_listing(&names(&[])), format!("{}\n{}\n", BANNER, COMMON));
}

#[test]
fn listing_keeps_the_order_given() {
    let text = render_listing(&names(&["b", "a"]));
    assert!(text.ends_with("mod _common;\nmod b;\nmod a;\n"));
}

#[test]
fn header_texts() {
    assert_eq!(
        BANNER,
        "// Rust test file autogenerated with cargo build (build/emtests.rs).\n// Please do NOT modify it by hand, as it will be reseted on next build.\n"
    );
    assert_eq!(
        COMMON,
        "// The _common module is not autogenerated, as it provides common macros for the emtests\n#[macro_use]\nmod _common;"
    );
}

#[test]
fn modules_are_sorted() {
    assert_eq!(
        sort_modules(&names(&["puts", "env", "test_poll", "clock_gettime"])),
        names(&["clock_gettime", "env", "puts", "test_poll"])
    );
}

#[test]
fn reverse_order_is_sorted() {
    assert_eq!(
        sort_modules(&names(&["z", "y", "x", "c", "b", "a"])),
        names(&["a", "b", "c", "x", "y", "z"])
    );
}

#[test]
fn sorting_goes_by_bytes() {
    assert_eq!(
        sort_modules(&names(&["ab", "a_b", "a", "", "b", "a1", "B", "\u{e9}", "z", "aa"])),
        names(&["", "B", "a", "a1", "a_b", "aa", "ab", "b", "z", "\u{e9}"])
    );
}

#[test]
fn sorting_agrees_with_the_standard_sort() {
    let given = names(&[
        "test_b", "test_a", "puts", "\u{1f600}", "\u{7ff}", "\u{800}", "\u{ffff}", "\u{10000}",
        "test_", "test", "printf", "env", "zz", "Zz", "0", "_common",
    ]);
    let mut expected = given.clone();
    expected.sort();
    assert_eq!(sort_modules(&given), expected);
}

#[test]
fn equal_names_are_all_kept() {
    assert_eq!(sort_modules(&names(&["b", "a", "b", "a"])), names(&["a", "a", "b", "b"]));
}

#[test]
fn sorting_nothing_gives_nothing() {
    assert_eq!(sort_modules(&names(&[])), Vec::<String>::new());
    assert_eq!(sort_modules(&names(&["one"])), names(&["one"]));
}

#[test]
fn identical_listing_is_not_written() {
    let text = render_listing(&names(&["env", "puts"]));
    assert!(!listing_changed(text.as_bytes(), &text));
}

#[test]
fn differing_listing_is_written() {
    let text = render_listing(&names(&["env", "puts"]));
    let shorter = render_listing(&names(&["env"]));
    assert!(listing_changed(shorter.as_bytes(), &text));
    assert!(listing_changed(b"", &text));
    assert!(listing_changed(&text.as_bytes()[1..], &text));
    let mut other = text.clone().into_bytes();
    let last = other.len() - 1;
    other[last] = b' ';
    assert!(listing_changed(&other, &text));
    other[last] = b'\n';
    assert!(!listing_changed(&other, &text));
    assert!(!listing_changed(b"", ""));
}
