//! The naming conventions that tie a fixture to its module, its compiled
//! artifact and its expected-output file.
//!
//! A fixture is a source file whose name ends with `.` and one of the
//! supported source extensions. Its module name is the stem of its file name.
//! Paths use `/` as separator.
use crate::text::{ends_with, find_last, last_index_of, lemma_last_index_of, starts_with};
use vstd::prelude::*;
use vstd::string::StringExecFns;

verus! {

/// Program that compiles a fixture.
pub const COMPILER: &'static str = "emcc";

/// File that lists the modules expected to fail, one per line.
pub const IGNORE_FILE: &'static str = "emtests/ignores.txt";

/// File that holds the aggregate listing, below the package root.
pub const LISTING_PATH: &'static str = "src/emtests/mod.rs";

/// The last component of a path: what follows its last `/`.
pub open spec fn file_name(path: Seq<char>) -> Seq<char> {
    path.skip(last_index_of(path, '/') + 1)
}

/// The file name without what follows its last `.`. A file name without a
/// `.`, or whose only `.` is its first character, is its own stem.
pub open spec fn stem(path: Seq<char>) -> Seq<char> {
    let name = file_name(path);
    let dot = last_index_of(name, '.');
    if dot <= 0 {
        name
    } else {
        name.take(dot)
    }
}

/// The source extensions that make a file a fixture, in the order in which
/// fixtures are discovered.
pub open spec fn supported_extensions() -> Seq<Seq<char>> {
    seq!["c"@, "cpp"@]
}

/// Whether the file name of a path ends with a `.` and the given extension.
pub open spec fn has_extension(path: Seq<char>, extension: Seq<char>) -> bool {
    ("."@ + extension).is_suffix_of(file_name(path))
}

/// Whether a path names a fixture: whether its file name has one of the
/// supported extensions.
pub open spec fn is_fixture(path: Seq<char>) -> bool {
    exists|i: int|
        0 <= i < supported_extensions().len() && has_extension(
            path,
            #[trigger] supported_extensions()[i],
        )
}

/// The endings that keep a discovered file out of the run. There are none at
/// present.
pub open spec fn exclusions() -> Seq<Seq<char>> {
    Seq::empty()
}

/// Whether a discovered file is kept out of the run: whether its path ends
/// with one of the exclusions.
pub open spec fn excluded(path: Seq<char>) -> bool {
    exists|i: int| 0 <= i < exclusions().len() && (#[trigger] exclusions()[i]).is_suffix_of(path)
}

/// Whether the expected output of a fixture is a raw capture: it is for every
/// `c` fixture, and for any fixture whose module name begins with `test_`.
pub open spec fn raw_output(path: Seq<char>) -> bool {
    has_extension(path, "c"@) || "test_"@.is_prefix_of(stem(path))
}

/// Extension of the expected-output file of a fixture.
pub open spec fn output_extension(path: Seq<char>) -> Seq<char> {
    if raw_output(path) {
        "out"@
    } else {
        "txt"@
    }
}

/// Path of the compiled artifact of a module.
pub open spec fn artifact_path(module: Seq<char>) -> Seq<char> {
    "emtests/"@ + module + ".wasm"@
}

/// Path of the expected-output file of a module.
pub open spec fn expected_output_path(module: Seq<char>, output_extension: Seq<char>) -> Seq<
    char,
> {
    "emtests/"@ + module + "."@ + output_extension
}

/// Path of the test stub of a module, below the package root. `module` is the
/// lower-case module name.
pub open spec fn stub_path(module: Seq<char>) -> Seq<char> {
    "src/emtests/"@ + module + ".rs"@
}

/// A path up to the end of the stem of its file name.
pub open spec fn without_extension(path: Seq<char>) -> Seq<char> {
    path.take(path.len() - file_name(path).len() + stem(path).len())
}

/// Where the compiler is told to put its output: the path of the fixture with
/// `js` for what follows the stem.
pub open spec fn transient_path(path: Seq<char>) -> Seq<char> {
    without_extension(path) + ".js"@
}

/// Arguments of the compiler run for a fixture.
pub open spec fn compiler_arguments(path: Seq<char>) -> Seq<Seq<char>> {
    seq![path, "-s"@, "WASM=1"@, "-o"@, transient_path(path)]
}

/// Pattern that matches the fixtures of one source extension.
pub open spec fn fixture_pattern(extension: Seq<char>) -> Seq<char> {
    "emtests/*."@ + extension
}

/// A fixture has exactly one of the two supported extensions.
proof fn lemma_fixture_extension(path: Seq<char>)
    ensures
        is_fixture(path) <==> has_extension(path, "c"@) || has_extension(path, "cpp"@),
        !(has_extension(path, "c"@) && has_extension(path, "cpp"@)),
        "."@ + "c"@ == ".c"@,
        "."@ + "cpp"@ == ".cpp"@,
{
    reveal_strlit(".");
    reveal_strlit("c");
    reveal_strlit("cpp");
    reveal_strlit(".c");
    reveal_strlit(".cpp");
    let exts = supported_extensions();
    assert(exts[0] == "c"@ && exts[1] == "cpp"@);
    assert("."@ + "c"@ =~= ".c"@);
    assert("."@ + "cpp"@ =~= ".cpp"@);
    let name = file_name(path);
    if has_extension(path, "c"@) && has_extension(path, "cpp"@) {
        assert(name.subrange(name.len() - 2, name.len() as int)[1] == 'c');
        assert(name.subrange(name.len() - 4, name.len() as int)[3] == 'p');
    }
}

/// The stem of a path lies in its file name, and the file name at the end of
/// the path. The stem of a fixture is not empty, and no stem holds a `/`.
pub proof fn lemma_stem(path: Seq<char>)
    ensures
        stem(path).len() <= file_name(path).len() <= path.len(),
        stem(path) == path.subrange(
            path.len() - file_name(path).len(),
            path.len() - file_name(path).len() + stem(path).len(),
        ),
        !stem(path).contains('/'),
        is_fixture(path) ==> stem(path).len() > 0,
{
    let name = file_name(path);
    lemma_last_index_of(path, '/');
    lemma_last_index_of(name, '.');
    let start = path.len() - name.len();
    assert(stem(path) =~= path.subrange(start, start + stem(path).len()));
    assert forall|i: int| 0 <= i < stem(path).len() implies stem(path)[i] != '/' by {
        assert(stem(path)[i] == path[start + i]);
    }
    lemma_fixture_extension(path);
    reveal_strlit(".c");
    reveal_strlit(".cpp");
}

/// The source extensions that make a file a fixture.
pub fn extensions() -> (r: Vec<&'static str>)
    ensures
        r.deep_view() == supported_extensions(),
{
    let r = vec!["c", "cpp"];
    proof {
        assert(r.deep_view() =~= supported_extensions());
    }
    r
}

/// The endings that keep a discovered file out of the run.
pub fn exclusion_list() -> (r: Vec<&'static str>)
    ensures
        r.deep_view() == exclusions(),
{
    let r: Vec<&'static str> = Vec::new();
    proof {
        assert(r.deep_view() =~= exclusions());
    }
    r
}

/// Whether a discovered file is kept out of the run.
pub fn is_excluded(file: &str) -> (r: bool)
    ensures
        r == excluded(file@),
{
    let endings = exclusion_list();
    let mut i: usize = 0;
    while i < endings.len()
        invariant
            i <= endings.len(),
            endings.deep_view() == exclusions(),
            forall|j: int| 0 <= j < i ==> !(#[trigger] exclusions()[j]).is_suffix_of(file@),
        decreases endings.len() - i,
    {
        proof {
            assert(endings.deep_view()[i as int] == endings[i as int]@);
        }
        if ends_with(file, endings[i]) {
            return true;
        }
        i += 1;
    }
    false
}

/// The pattern to search the fixtures directory with, for one source extension.
pub fn pattern_for(extension: &str) -> (r: String)
    ensures
        r@ == fixture_pattern(extension@),
{
    String::from_str("emtests/*.").concat(extension)
}

/// The path of the compiled artifact of a module.
pub fn artifact_of(module: &str) -> (r: String)
    ensures
        r@ == artifact_path(module@),
{
    String::from_str("emtests/").concat(module).concat(".wasm")
}

/// The path of the expected-output file of a module.
pub fn expected_output_of(module: &str, output_extension: &str) -> (r: String)
    ensures
        r@ == expected_output_path(module@, output_extension@),
{
    String::from_str("emtests/").concat(module).concat(".").concat(output_extension)
}

/// The path of the test stub of a module, below the package root.
pub fn stub_path_of(module: &str) -> (r: String)
    ensures
        r@ == stub_path(module@),
{
    String::from_str("src/emtests/").concat(module).concat(".rs")
}

/// The path of a fixture, split into the parts that the conventions read.
#[derive(Debug, PartialEq, Eq)]
pub struct FixturePath {
    path: String,
    stem: String,
    stem_end: usize,
    c_source: bool,
}

impl View for FixturePath {
    type V = Seq<char>;

    closed spec fn view(&self) -> Seq<char> {
        self.path@
    }
}

impl FixturePath {
    #[verifier::type_invariant]
    spec fn well_formed(self) -> bool {
        &&& is_fixture(self.path@)
        &&& self.stem@ == stem(self.path@)
        &&& self.stem_end == self.path@.len() - file_name(self.path@).len() + stem(
            self.path@,
        ).len()
        &&& self.c_source == has_extension(self.path@, "c"@)
    }

    /// Reads a path. Succeeds exactly on the paths that name a fixture.
    pub fn parse(file: &str) -> (r: Option<FixturePath>)
        ensures
            r is Some <==> is_fixture(file@),
            r matches Some(f) ==> f@ == file@,
    {
        let len = file.unicode_len();
        proof {
            lemma_last_index_of(file@, '/');
            lemma_fixture_extension(file@);
        }
        let start: usize = match find_last(file, '/') {
            Some(i) => i + 1,
            None => 0,
        };
        let name = file.substring_char(start, len);
        proof {
            assert(name@ =~= file_name(file@));
            lemma_last_index_of(name@, '.');
        }
        let c_source = ends_with(name, ".c");
        if !c_source && !ends_with(name, ".cpp") {
            return None;
        }
        let stem_len: usize = match find_last(name, '.') {
            Some(dot) => if dot > 0 {
                dot
            } else {
                len - start
            },
            None => len - start,
        };
        let module_name = name.substring_char(0, stem_len);
        proof {
            assert(module_name@ =~= stem(file@));
        }
        Some(
            FixturePath {
                path: String::from_str(file),
                stem: String::from_str(module_name),
                stem_end: start + stem_len,
                c_source,
            },
        )
    }

    /// The path as it was read.
    pub fn as_str(&self) -> (r: &str)
        ensures
            r@ == self@,
    {
        self.path.as_str()
    }

    /// The module name: the file stem, in the case it has on disk.
    pub fn module_name(&self) -> (r: &str)
        ensures
            r@ == stem(self@),
    {
        proof {
            use_type_invariant(self);
        }
        self.stem.as_str()
    }

    /// The source extension.
    pub fn extension(&self) -> (r: &'static str)
        ensures
            has_extension(self@, r@),
            supported_extensions().contains(r@),
    {
        proof {
            use_type_invariant(self);
            lemma_fixture_extension(self.path@);
            assert(supported_extensions()[0] == "c"@ && supported_extensions()[1] == "cpp"@);
        }
        if self.c_source {
            "c"
        } else {
            "cpp"
        }
    }

    /// The extension of the expected-output file.
    pub fn output_extension(&self) -> (r: &'static str)
        ensures
            r@ == output_extension(self@),
    {
        proof {
            use_type_invariant(self);
        }
        if self.c_source || starts_with(self.stem.as_str(), "test_") {
            "out"
        } else {
            "txt"
        }
    }

    /// The path of the compiled artifact.
    pub fn artifact_path(&self) -> (r: String)
        ensures
            r@ == artifact_path(stem(self@)),
    {
        artifact_of(self.module_name())
    }

    /// The path of the expected-output file.
    pub fn expected_output_path(&self) -> (r: String)
        ensures
            r@ == expected_output_path(stem(self@), output_extension(self@)),
    {
        expected_output_of(self.module_name(), self.output_extension())
    }

    /// The path that the compiler run writes to.
    pub fn transient_path(&self) -> (r: String)
        ensures
            r@ == transient_path(self@),
    {
        proof {
            use_type_invariant(self);
            lemma_stem(self.path@);
        }
        let base = self.path.as_str().substring_char(0, self.stem_end);
        proof {
            assert(base@ =~= without_extension(self.path@));
        }
        String::from_str(base).concat(".js")
    }

    /// The arguments of the compiler run.
    pub fn compiler_arguments(&self) -> (r: Vec<String>)
        ensures
            r.deep_view() == compiler_arguments(self@),
    {
        let r = vec![
            self.path.clone(),
            String::from_str("-s"),
            String::from_str("WASM=1"),
            String::from_str("-o"),
            self.transient_path(),
        ];
        proof {
            assert(r.deep_view() =~= compiler_arguments(self@));
        }
        r
    }
}

} // verus!
