use vstd::prelude::*;

verus! {

/// The application's hook object.
#[derive(Debug)]
pub struct App;

/// The revision a version names: the build's own, else the one the CI
/// system gave, else "dev".
pub open spec fn revision_of(build_sha: Option<Seq<char>>, github_sha: Option<Seq<char>>) -> Seq<
    char,
> {
    match build_sha {
        Some(s) => s,
        None => match github_sha {
            Some(s) => s,
            None => "dev"@,
        },
    }
}

impl App {
    /// The crate name the application reports.
    pub fn app_name() -> (name: &'static str)
        ensures
            name@ == "admin_backend"@,
    {
        "admin_backend"
    }

    /// The version the application reports: the package version and, in
    /// brackets, the revision it was built from.
    pub fn version_text(pkg_version: &str, build_sha: Option<&str>, github_sha: Option<&str>) -> (r:
        String)
        ensures
            r@ == pkg_version@ + " ("@ + revision_of(
                match build_sha {
                    Some(s) => Some(s@),
                    None => None,
                },
                match github_sha {
                    Some(s) => Some(s@),
                    None => None,
                },
            ) + ")"@,
    {
        let revision: &str = match build_sha {
            Some(s) => s,
            None => match github_sha {
                Some(s) => s,
                None => "dev",
            },
        };
        String::from_str(pkg_version).concat(" (").concat(revision).concat(")")
    }
}

} // verus!
