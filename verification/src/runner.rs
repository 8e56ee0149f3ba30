//! The list of lexer tests that a test run goes through.
use vstd::prelude::*;

verus! {

/// A lexer test: a source file whose tokens are compared with those of the
/// reference lexer, or with the contents of a text file.
pub enum TestType {
    VsRust(&'static str),
    VsTxt(&'static str, &'static str),
}

/// The lexer tests to run against one compiled test binary.
pub struct TestRunner {
    bin_path: String,
    tests: Vec<TestType>,
}

impl TestRunner {
    /// A runner for the binary at `bin_path`, with no tests yet.
    pub fn with_binary(bin_path: String) -> (r: TestRunner)
        ensures
            r.bin_path() == bin_path@,
            r.tests() == Seq::<TestType>::empty(),
    {
        TestRunner { bin_path, tests: Vec::new() }
    }

    pub closed spec fn bin_path(&self) -> Seq<char> {
        self.bin_path@
    }

    /// The tests, in the order they were added.
    pub closed spec fn tests(&self) -> Seq<TestType> {
        self.tests@
    }

    /// Adds a test whose expected tokens come from the reference lexer.
    pub fn add_test_vs_rust(self, test_path: &'static str) -> (r: TestRunner)
        ensures
            r.bin_path() == self.bin_path(),
            r.tests() == self.tests().push(TestType::VsRust(test_path)),
    {
        let mut s = self;
        s.tests.push(TestType::VsRust(test_path));
        s
    }

    /// Adds a test whose expected output is the contents of a text file.
    pub fn add_test_vs_txt(self, test_path: &'static str, txt_path: &'static str) -> (r: TestRunner)
        ensures
            r.bin_path() == self.bin_path(),
            r.tests() == self.tests().push(TestType::VsTxt(test_path, txt_path)),
    {
        let mut s = self;
        s.tests.push(TestType::VsTxt(test_path, txt_path));
        s
    }

    /// The binary's path and the tests, taken apart.
    pub fn into_parts(self) -> (r: (String, Vec<TestType>))
        ensures
            r.0@ == self.bin_path(),
            r.1@ == self.tests(),
    {
        let TestRunner { bin_path, tests } = self;
        (bin_path, tests)
    }
}

} // verus!
