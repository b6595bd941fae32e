//! The test emitter: the text of the test stub of one paired fixture.
use crate::naming::{
    artifact_of, artifact_path, expected_output_of, expected_output_path, stub_path, stub_path_of,
};
use vstd::prelude::*;
use vstd::string::StringExecFns;

verus! {

/// A test stub: the file to write for one module.
#[derive(Debug, Clone, PartialEq, Eq)]
pub struct TestStub {
    /// The lower-case module name, under which the aggregate listing declares
    /// the stub.
    pub module: String,
    /// The path of the stub file, below the package root.
    pub path: String,
    /// The text of the stub file.
    pub contents: String,
}

/// What a `TestStub` holds.
pub struct StubView {
    pub module: Seq<char>,
    pub path: Seq<char>,
    pub contents: Seq<char>,
}

impl View for TestStub {
    type V = StubView;

    open spec fn view(&self) -> StubView {
        StubView { module: self.module@, path: self.path@, contents: self.contents@ }
    }
}

impl DeepView for TestStub {
    type V = StubView;

    open spec fn deep_view(&self) -> StubView {
        self@
    }
}

/// The attributes that open a stub. A stub that is expected to fail carries
/// `#[ignore]` on a line of its own between `#[test]` and the declaration.
pub open spec fn stub_head(ignored: bool) -> Seq<char> {
    if ignored {
        "#[test]\n#[ignore]"@
    } else {
        "#[test]"@
    }
}

/// The text of a stub: one test that hands the comparison entry point the
/// artifact path, the module name, no arguments and the expected-output path.
/// Both paths are taken from two directories above the stub.
pub open spec fn stub_text(
    module: Seq<char>,
    artifact: Seq<char>,
    expected_output: Seq<char>,
    ignored: bool,
) -> Seq<char> {
    stub_head(ignored) + "\nfn test_"@ + module
        + "() {\n    assert_emscripten_output!(\n        \"../../"@ + artifact
        + "\",\n        \""@ + module + "\",\n        vec![],\n        \"../../"@
        + expected_output + "\"\n    );\n}\n"@
}

/// The stub of a module. `module_name` is the name in the case it has on disk,
/// by which artifact and expected output are found; `module` is the same name
/// in lower case, by which the stub is named.
pub open spec fn stub_for(
    module_name: Seq<char>,
    module: Seq<char>,
    output_extension: Seq<char>,
    ignored: bool,
) -> StubView {
    StubView {
        module: module,
        path: stub_path(module),
        contents: stub_text(
            module,
            artifact_path(module_name),
            expected_output_path(module_name, output_extension),
            ignored,
        ),
    }
}

/// Whether the text of a stub marks its test as expected to fail.
pub open spec fn marked_ignored(contents: Seq<char>) -> bool {
    "#[test]\n#[ignore]\n"@.is_prefix_of(contents)
}

/// A stub is marked as expected to fail exactly when it was emitted as
/// ignored.
pub proof fn lemma_ignore_marker(
    module: Seq<char>,
    artifact: Seq<char>,
    expected_output: Seq<char>,
    ignored: bool,
)
    ensures
        marked_ignored(stub_text(module, artifact, expected_output, ignored)) <==> ignored,
{
    reveal_strlit("#[test]\n#[ignore]\n");
    reveal_strlit("#[test]\n#[ignore]");
    reveal_strlit("#[test]");
    reveal_strlit("\nfn test_");
    let marker = "#[test]\n#[ignore]\n"@;
    let text = stub_text(module, artifact, expected_output, ignored);
    let tail = module + "() {\n    assert_emscripten_output!(\n        \"../../"@ + artifact
        + "\",\n        \""@ + module + "\",\n        vec![],\n        \"../../"@
        + expected_output + "\"\n    );\n}\n"@;
    assert(text =~= stub_head(ignored) + "\nfn test_"@ + tail);
    if ignored {
        assert(marker =~= text.subrange(0, marker.len() as int));
    } else {
        assert(text[8] == 'f');
        assert(marker[8] == '#');
        if marker.is_prefix_of(text) {
            assert(text.subrange(0, marker.len() as int)[8] == text[8]);
        }
    }
}

/// Renders the stub of a module.
pub fn emit(module_name: &str, module: &str, output_extension: &str, ignored: bool) -> (stub:
    TestStub)
    ensures
        stub@ == stub_for(module_name@, module@, output_extension@, ignored),
{
    let artifact = artifact_of(module_name);
    let expected_output = expected_output_of(module_name, output_extension);
    let head = if ignored {
        "#[test]\n#[ignore]"
    } else {
        "#[test]"
    };
    let mut contents = String::from_str(head);
    contents.append("\nfn test_");
    contents.append(module);
    contents.append("() {\n    assert_emscripten_output!(\n        \"../../");
    contents.append(artifact.as_str());
    contents.append("\",\n        \"");
    contents.append(module);
    contents.append("\",\n        vec![],\n        \"../../");
    contents.append(expected_output.as_str());
    contents.append("\"\n    );\n}\n");
    TestStub { module: String::from_str(module), path: stub_path_of(module), contents }
}

} // verus!
