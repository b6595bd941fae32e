use emtests::emit::emit;

#[test]
fn stub_of_a_module() {
    let stub = emit("puts", "puts", "out", false);
    assert_eq!(stub.module, "puts");
    assert_eq!(stub.path, "src/emtests/puts.rs");
    assert_eq!(
        stub.contents,
        "#[test]
fn test_puts() {
    assert_emscripten_output!(
        \"../../emtests/puts.wasm\",
        \"puts\",
        vec![],
        \"../../emtests/puts.out\"
    );
}
"
    );
}

#[test]
fn stub_of_an_ignored_module() {
    let stub = emit("test_poll", "test_poll", "out", true);
    assert_eq!(stub.module, "test_poll");
    assert_eq!(stub.path, "src/emtests/test_poll.rs");
    assert_eq!(
        stub.contents,
        "#[test]
#[ignore]
fn test_test_poll() {
    assert_emscripten_output!(
        \"../../emtests/test_poll.wasm\",
        \"test_poll\",
        vec![],
        \"../../emtests/test_poll.out\"
    );
}
"
    );
}

#[test]
fn stub_names_files_in_the_case_on_disk() {
    let stub = emit("Env", "env", "txt", false);
    assert_eq!(stub.module, "env");
    assert_eq!(stub.path, "src/emtests/env.rs");
    assert_eq!(
        stub.contents,
        "#[test]\nfn test_env() {\n    assert_emscripten_output!(\n        \"../../emtests/Env.wasm\",\n        \"env\",\n        vec![],\n        \"../../emtests/Env.txt\"\n    );\n}\n"
    );
}

#[test]
fn ignore_marker_follows_the_flag() {
    let marked = emit("puts", "puts", "out", true);
    let plain = emit("puts", "puts", "out", false);
    assert!(marked.contents.starts_with("#[test]\n#[ignore]\nfn test_puts()"));
    assert!(plain.contents.starts_with("#[test]\nfn test_puts()"));
    assert!(!plain.contents.contains("#[ignore]"));
    assert_eq!(marked.contents.replacen("\n#[ignore]", "", 1), plain.contents);
}

#[test]
fn stub_passes_no_arguments() {
    let stub = emit("puts", "puts", "out", false);
    assert_eq!(stub.contents.matches("vec![],").count(), 1);
}
