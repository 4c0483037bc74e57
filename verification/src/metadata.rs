//! The package metadata that a recipe is made from.

use vstd::prelude::*;

verus! {

/// What is known of a package: its required name and version, and the
/// optional fields that a recipe can carry.
#[derive(Clone, Debug, PartialEq, Eq)]
pub struct PackageMetadata {
    /// The package's name.
    pub name: String,
    /// The package's version, kept as it was given.
    pub version: String,
    /// A free-text description.
    pub description: Option<String>,
    /// The authors, in the order in which they are shown.
    pub authors: Vec<String>,
    /// The URL of the package's home page.
    pub homepage: Option<String>,
    /// The identifier of the package's license, taken as a single token.
    pub license: Option<String>,
}

/// The mathematical model of a [`PackageMetadata`]: each text as its
/// sequence of characters.
pub ghost struct PackageView {
    /// The characters of the name.
    pub name: Seq<char>,
    /// The characters of the version.
    pub version: Seq<char>,
    /// The characters of the description, where there is one.
    pub description: Option<Seq<char>>,
    /// The characters of each author, in the authors' order.
    pub authors: Seq<Seq<char>>,
    /// The characters of the home page's URL, where there is one.
    pub homepage: Option<Seq<char>>,
    /// The characters of the license, where there is one.
    pub license: Option<Seq<char>>,
}

impl View for PackageMetadata {
    type V = PackageView;

    open spec fn view(&self) -> PackageView {
        PackageView {
            name: self.name@,
            version: self.version@,
            description: self.description.deep_view(),
            authors: self.authors.deep_view(),
            homepage: self.homepage.deep_view(),
            license: self.license.deep_view(),
        }
    }
}

impl PackageView {
    /// A record is well formed when its required fields are there: when
    /// neither its name nor its version is empty.
    pub open spec fn well_formed(self) -> bool {
        self.name.len() > 0 && self.version.len() > 0
    }
}

impl PackageMetadata {
    /// Whether the record is well formed: whether neither its name nor its
    /// version is empty.
    pub fn is_well_formed(&self) -> (ok: bool)
        ensures
            ok == self@.well_formed(),
    {
        !self.name.as_str().is_empty() && !self.version.as_str().is_empty()
    }
}

} // verus!
