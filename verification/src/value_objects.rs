//! Validated absolute directory paths for a run: the package root, the
//! source directory and the compiled-output directory. The source and output
//! directories must each be a descendant of the package directory.

use vstd::prelude::*;
use vstd::string::StrSliceExecFns;
use vstd::string::StringExecFns;

use crate::paths::is_inside;
use crate::paths::spec_is_inside;

verus! {

/// Whether a path is absolute: it begins with `/`.
pub open spec fn spec_is_absolute(s: Seq<char>) -> bool {
    s.len() > 0 && s[0] == '/'
}

fn check_absolute(value: &String) -> (r: bool)
    ensures
        r == spec_is_absolute(value@),
{
    value.as_str().unicode_len() > 0 && value.as_str().get_char(0) == '/'
}

/// The package root directory, as a validated absolute path.
pub struct AbsolutePackageDir {
    value: String,
}

impl AbsolutePackageDir {
    /// The path held by this directory value.
    pub closed spec fn spec_value(&self) -> Seq<char> {
        self.value@
    }

    /// Every constructed value holds an absolute path.
    pub open spec fn wf(&self) -> bool {
        spec_is_absolute(self.spec_value())
    }

    /// Accepts only an absolute path.
    pub fn new(value: String) -> (r: Result<AbsolutePackageDir, String>)
        ensures
            match r {
                Ok(d) => d.wf() && d.spec_value() == value@ && spec_is_absolute(value@),
                Err(m) => !spec_is_absolute(value@) && m@ == "Package directory must be an absolute path"@,
            },
    {
        if check_absolute(&value) {
            Ok(AbsolutePackageDir { value })
        } else {
            Err(String::from_str("Package directory must be an absolute path"))
        }
    }

    /// The path as a string.
    pub fn value(&self) -> (r: &String)
        ensures
            r@ == self.spec_value(),
    {
        &self.value
    }
}

/// The directory holding the package's sources, as a validated absolute path.
pub struct AbsoluteSourceDir {
    value: String,
}

impl AbsoluteSourceDir {
    /// The path held by this directory value.
    pub closed spec fn spec_value(&self) -> Seq<char> {
        self.value@
    }

    /// Every constructed value holds an absolute path.
    pub open spec fn wf(&self) -> bool {
        spec_is_absolute(self.spec_value())
    }

    /// Accepts only an absolute path.
    pub fn new(value: String) -> (r: Result<AbsoluteSourceDir, String>)
        ensures
            match r {
                Ok(d) => d.wf() && d.spec_value() == value@ && spec_is_absolute(value@),
                Err(m) => !spec_is_absolute(value@) && m@ == "Source directory must be an absolute path"@,
            },
    {
        if check_absolute(&value) {
            Ok(AbsoluteSourceDir { value })
        } else {
            Err(String::from_str("Source directory must be an absolute path"))
        }
    }

    /// The path as a string.
    pub fn value(&self) -> (r: &String)
        ensures
            r@ == self.spec_value(),
    {
        &self.value
    }

    /// Whether this directory lies strictly inside the package directory.
    pub fn is_package_dir_child(&self, package_dir: &AbsolutePackageDir) -> (r: bool)
        ensures
            r == spec_is_inside(self.spec_value(), package_dir.spec_value()),
    {
        is_inside(self.value.as_str(), package_dir.value().as_str())
    }
}

/// The directory holding the compiled output, as a validated absolute path;
/// it bounds the dependency-closure walk.
pub struct AbsoluteOutputDir {
    value: String,
}

impl AbsoluteOutputDir {
    /// The path held by this directory value.
    pub closed spec fn spec_value(&self) -> Seq<char> {
        self.value@
    }

    /// Every constructed value holds an absolute path.
    pub open spec fn wf(&self) -> bool {
        spec_is_absolute(self.spec_value())
    }

    /// Accepts only an absolute path.
    pub fn new(value: String) -> (r: Result<AbsoluteOutputDir, String>)
        ensures
            match r {
                Ok(d) => d.wf() && d.spec_value() == value@ && spec_is_absolute(value@),
                Err(m) => !spec_is_absolute(value@) && m@ == "Output directory must be an absolute path"@,
            },
    {
        if check_absolute(&value) {
            Ok(AbsoluteOutputDir { value })
        } else {
            Err(String::from_str("Output directory must be an absolute path"))
        }
    }

    /// The path as a string.
    pub fn value(&self) -> (r: &String)
        ensures
            r@ == self.spec_value(),
    {
        &self.value
    }

    /// Whether this directory lies strictly inside the package directory.
    pub fn is_package_dir_child(&self, package_dir: &AbsolutePackageDir) -> (r: bool)
        ensures
            r == spec_is_inside(self.spec_value(), package_dir.spec_value()),
    {
        is_inside(self.value.as_str(), package_dir.value().as_str())
    }
}

} // verus!
