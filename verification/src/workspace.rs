use vstd::prelude::*;

verus! {

// ---------------------------------------------------------------------------
// Workspace package selection.
//
// Locating a workspace is the build tool's job; what reaches this library
// is the plain outcome: the manifest path the workspace was resolved from,
// and the name and manifest path of each package. Selecting a package out
// of that list is this library's own logic.
// ---------------------------------------------------------------------------

/// One workspace package: its name and the path of its manifest file.
pub struct PackageInfo {
    pub name: String,
    pub manifest_path: String,
}

/// `p`, at index `i`, is the first package of `s` named `name`.
pub open spec fn first_package_named(
    s: Seq<PackageInfo>,
    name: Seq<char>,
    i: int,
    p: PackageInfo,
) -> bool {
    &&& 0 <= i < s.len()
    &&& p == s[i]
    &&& p.name@ == name
    &&& forall|j: int| 0 <= j < i ==> #[trigger] s[j].name@ != name
}

/// `p` stands, at some index, as the first package of `s` named `name`.
pub open spec fn found_package_named(s: Seq<PackageInfo>, name: Seq<char>, p: PackageInfo) -> bool {
    exists|i: int| #[trigger] first_package_named(s, name, i, p)
}

/// `p`, at index `i`, is the first package of `s` whose manifest is at
/// `path`.
pub open spec fn first_package_with_manifest(
    s: Seq<PackageInfo>,
    path: Seq<char>,
    i: int,
    p: PackageInfo,
) -> bool {
    &&& 0 <= i < s.len()
    &&& p == s[i]
    &&& p.manifest_path@ == path
    &&& forall|j: int| 0 <= j < i ==> #[trigger] s[j].manifest_path@ != path
}

/// `p` stands, at some index, as the first package of `s` whose manifest
/// is at `path`.
pub open spec fn found_package_with_manifest(
    s: Seq<PackageInfo>,
    path: Seq<char>,
    p: PackageInfo,
) -> bool {
    exists|i: int| #[trigger] first_package_with_manifest(s, path, i, p)
}

/// One resolved workspace: the manifest it was located by, and its
/// packages.
pub struct CargoWorkspace {
    manifest_path: String,
    packages: Vec<PackageInfo>,
}

impl CargoWorkspace {
    /// The packages, at the specification level.
    pub closed spec fn spec_packages(&self) -> Seq<PackageInfo> {
        self.packages@
    }

    /// The manifest path the workspace was located by, at the
    /// specification level.
    pub closed spec fn spec_manifest_path(&self) -> Seq<char> {
        self.manifest_path@
    }

    /// Builds a workspace value from the build tool's plain outcome.
    pub fn new(manifest_path: String, packages: Vec<PackageInfo>) -> (r: CargoWorkspace)
        ensures
            r.spec_manifest_path() == manifest_path@,
            r.spec_packages() == packages@,
    {
        CargoWorkspace { manifest_path, packages }
    }

    /// The first package whose manifest path is the one the workspace was
    /// located by: the package a bare invocation works on.
    pub fn find_default_package(&self) -> (r: Option<&PackageInfo>)
        ensures
            r matches Some(p) ==> found_package_with_manifest(
                self.spec_packages(),
                self.spec_manifest_path(),
                *p,
            ),
            r is None ==> forall|i: int|
                0 <= i < self.spec_packages().len()
                    ==> #[trigger] self.spec_packages()[i].manifest_path@
                    != self.spec_manifest_path(),
    {
        let n = self.packages.len();
        let mut i: usize = 0;
        while i < n
            invariant
                n == self.packages@.len(),
                i <= n,
                forall|j: int| 0 <= j < i ==> #[trigger] self.packages@[j].manifest_path@
                    != self.manifest_path@,
            decreases n - i,
        {
            if self.packages[i].manifest_path == self.manifest_path {
                let p = &self.packages[i];
                proof {
                    assert(first_package_with_manifest(
                        self.spec_packages(),
                        self.spec_manifest_path(),
                        i as int,
                        *p,
                    ));
                    assert(found_package_with_manifest(
                        self.spec_packages(),
                        self.spec_manifest_path(),
                        *p,
                    ));
                }
                return Some(p);
            }
            i += 1;
        }
        None
    }

    /// The first package named `name`, if any.
    pub fn find_package(&self, name: &str) -> (r: Option<&PackageInfo>)
        ensures
            r matches Some(p) ==> found_package_named(self.spec_packages(), name@, *p),
            r is None ==> forall|i: int|
                0 <= i < self.spec_packages().len()
                    ==> #[trigger] self.spec_packages()[i].name@ != name@,
    {
        let owned = name.to_owned();
        let n = self.packages.len();
        let mut i: usize = 0;
        while i < n
            invariant
                n == self.packages@.len(),
                owned@ == name@,
                i <= n,
                forall|j: int| 0 <= j < i ==> #[trigger] self.packages@[j].name@ != name@,
            decreases n - i,
        {
            if self.packages[i].name == owned {
                let p = &self.packages[i];
                proof {
                    assert(first_package_named(self.spec_packages(), name@, i as int, *p));
                    assert(found_package_named(self.spec_packages(), name@, *p));
                }
                return Some(p);
            }
            i += 1;
        }
        None
    }
}

} // verus!
