use emtests::naming::{
    artifact_of, exclusion_list, expected_output_of, extensions, is_excluded, pattern_for,
    stub_path_of, FixturePath, COMPILER, IGNORE_FILE, LISTING_PATH,
};

fn fixture(path: &str) -> FixturePath {
    FixturePath::parse(path).expect("a fixture path")
}

#[test]
fn raw_output_for_c_fixture_with_test_prefix() {
    assert_eq!(fixture("test_foo.c").output_extension(), "out");
    assert_eq!(fixture("emtests/test_foo.c").output_extension(), "out");
}

#[test]
fn alternate_output_for_cpp_fixture_without_prefix() {
    assert_eq!(fixture("bar.cpp").output_extension(), "txt");
    assert_eq!(fixture("emtests/bar.cpp").output_extension(), "txt");
}

#[test]
fn raw_output_for_any_c_fixture() {
    assert_eq!(fixture("emtests/puts.c").output_extension(), "out");
}

#[test]
fn raw_output_for_cpp_fixture_with_test_prefix() {
    assert_eq!(fixture("emtests/test_vector.cpp").output_extension(), "out");
}

#[test]
fn prefix_must_be_whole() {
    assert_eq!(fixture("emtests/test.cpp").output_extension(), "txt");
    assert_eq!(fixture("emtests/tes_t.cpp").output_extension(), "txt");
    assert_eq!(fixture("emtests/Test_x.cpp").output_extension(), "txt");
    assert_eq!(fixture("emtests/test_.cpp").output_extension(), "out");
}

#[test]
fn module_name_is_the_file_stem() {
    assert_eq!(fixture("emtests/puts.c").module_name(), "puts");
    assert_eq!(fixture("emtests/Env.CPP.cpp").module_name(), "Env.CPP");
    assert_eq!(fixture("a/b/c/localtime.c").module_name(), "localtime");
    assert_eq!(fixture("plain.c").module_name(), "plain");
    assert_eq!(fixture("emtests/.hidden.c").module_name(), ".hidden");
    assert_eq!(fixture("dir.c/inner.cpp").module_name(), "inner");
}

#[test]
fn file_named_by_its_extension_alone_is_its_own_stem() {
    let c = fixture("emtests/.c");
    assert_eq!(c.module_name(), ".c");
    assert_eq!(c.extension(), "c");
    assert_eq!(c.output_extension(), "out");
    assert_eq!(c.artifact_path(), "emtests/.c.wasm");
    assert_eq!(c.expected_output_path(), "emtests/.c.out");
    assert_eq!(c.transient_path(), "emtests/.c.js");
    let cpp = fixture(".cpp");
    assert_eq!(cpp.module_name(), ".cpp");
    assert_eq!(cpp.extension(), "cpp");
    assert_eq!(cpp.output_extension(), "txt");
    assert_eq!(cpp.artifact_path(), "emtests/.cpp.wasm");
    assert_eq!(cpp.expected_output_path(), "emtests/.cpp.txt");
    assert_eq!(cpp.transient_path(), ".cpp.js");
    assert_eq!(fixture("emtests/..c").module_name(), ".");
    assert_eq!(fixture("emtests/..c").transient_path(), "emtests/..js");
}

#[test]
fn module_name_agrees_with_the_standard_file_stem() {
    for path in [
        "emtests/puts.c",
        "emtests/.c",
        "emtests/.cpp",
        "emtests/..c",
        "emtests/.hidden.c",
        "emtests/a.b.c.cpp",
        "x.c",
        "a/b.c/c.cpp",
        "emtests/caf\u{e9}.c",
    ] {
        let std_path = std::path::Path::new(path);
        let stem = std_path.file_stem().unwrap().to_str().unwrap();
        assert_eq!(fixture(path).module_name(), stem, "{:?}", path);
        let mut js = std_path.to_path_buf();
        js.set_extension("js");
        assert_eq!(fixture(path).transient_path(), js.to_str().unwrap(), "{:?}", path);
    }
}

#[test]
fn extension_is_what_follows_the_last_dot() {
    assert_eq!(fixture("emtests/puts.c").extension(), "c");
    assert_eq!(fixture("emtests/a.c.cpp").extension(), "cpp");
    assert_eq!(fixture("emtests/a.cpp.c").extension(), "c");
}

#[test]
fn path_is_kept_as_read() {
    assert_eq!(fixture("./emtests//puts.c").as_str(), "./emtests//puts.c");
}

#[test]
fn other_files_are_no_fixtures() {
    for path in [
        "",
        "emtests",
        "emtests/",
        "emtests/puts",
        "emtests/puts.",
        "emtests/puts.h",
        "emtests/puts.C",
        "emtests/puts.cc",
        "emtests/puts.c/",
        "emtests/puts.c/out",
        "emtests/puts.wasm",
        "emtests/.c.",
        "emtests/.ccpp",
        "emtests/puts.c ",
        "emtests/c",
        "emtests/cpp",
    ] {
        assert!(FixturePath::parse(path).is_none(), "{:?}", path);
    }
}

#[test]
fn companion_paths() {
    let puts = fixture("emtests/puts.c");
    assert_eq!(puts.artifact_path(), "emtests/puts.wasm");
    assert_eq!(puts.expected_output_path(), "emtests/puts.out");
    let env = fixture("emtests/Env.cpp");
    assert_eq!(env.artifact_path(), "emtests/Env.wasm");
    assert_eq!(env.expected_output_path(), "emtests/Env.txt");
    let test = fixture("elsewhere/test_std.cpp");
    assert_eq!(test.artifact_path(), "emtests/test_std.wasm");
    assert_eq!(test.expected_output_path(), "emtests/test_std.out");
}

#[test]
fn paths_from_module_names() {
    assert_eq!(artifact_of("puts"), "emtests/puts.wasm");
    assert_eq!(expected_output_of("puts", "out"), "emtests/puts.out");
    assert_eq!(expected_output_of("Env", "txt"), "emtests/Env.txt");
    assert_eq!(stub_path_of("env"), "src/emtests/env.rs");
}

#[test]
fn transient_path_replaces_the_extension() {
    assert_eq!(fixture("emtests/puts.c").transient_path(), "emtests/puts.js");
    assert_eq!(fixture("emtests/a.b.cpp").transient_path(), "emtests/a.b.js");
    assert_eq!(fixture("x.c/y.cpp").transient_path(), "x.c/y.js");
    assert_eq!(fixture("emtests/caf\u{e9}.cpp").transient_path(), "emtests/caf\u{e9}.js");
}

#[test]
fn compiler_run() {
    assert_eq!(COMPILER, "emcc");
    assert_eq!(
        fixture("emtests/puts.c").compiler_arguments(),
        vec!["emtests/puts.c", "-s", "WASM=1", "-o", "emtests/puts.js"]
    );
}

#[test]
fn discovery_patterns() {
    assert_eq!(extensions(), vec!["c", "cpp"]);
    assert_eq!(pattern_for("c"), "emtests/*.c");
    assert_eq!(pattern_for("cpp"), "emtests/*.cpp");
}

#[test]
fn nothing_is_excluded() {
    assert!(exclusion_list().is_empty());
    assert!(!is_excluded("emtests/puts.c"));
    assert!(!is_excluded(""));
}

#[test]
fn fixed_paths() {
    assert_eq!(IGNORE_FILE, "emtests/ignores.txt");
    assert_eq!(LISTING_PATH, "src/emtests/mod.rs");
}
