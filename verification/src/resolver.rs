//! From what `cargo metadata` reported to the metadata of the root package.

use vstd::prelude::*;
use cargo_metadata::Metadata;
use crate::metadata::{PackageMetadata, PackageView};

verus! {

/// Why no package metadata could be had.
#[derive(Clone, Copy, Debug, PartialEq, Eq, Structural)]
pub enum ResolutionError {
    /// No manifest in the working directory or in any directory above it.
    NotFound,
    /// The manifest describes a workspace that has no root package.
    NoRootPackage,
    /// The manifest cannot be read, or lacks a required field.
    Malformed,
}

/// `cargo_metadata::Metadata`, the answer of `cargo metadata` as the
/// `cargo_metadata` crate holds it. Nothing of its contents is visible here.
#[verifier::external_type_specification]
#[verifier::external_body]
pub struct ExMetadata(cargo_metadata::Metadata);

/// `cargo_metadata::Error`, the failure of a `cargo metadata` query.
#[verifier::external_type_specification]
#[verifier::external_body]
pub struct ExMetadataError(cargo_metadata::Error);

/// What `cargo_metadata::Metadata::root_package` finds in `metadata`: the
/// fields of the root package that a recipe is made from, or `None` where
/// the metadata has no root package.
pub uninterp spec fn root_package_of(metadata: Metadata) -> Option<PackageView>;

/// The view of a package that may be missing.
pub open spec fn found_view(found: Option<PackageMetadata>) -> Option<PackageView> {
    match found {
        Some(package) => Some(package@),
        None => None,
    }
}

/// Calls `cargo_metadata::Metadata::root_package` and copies the name, the
/// version (as `semver::Version` displays it), the description, the authors,
/// the home page and the license of the package that it returns. All that is
/// claimed is that the result depends on `metadata` alone.
#[verifier::external_body]
fn root_package(metadata: &Metadata) -> (root: Option<PackageMetadata>)
    ensures
        found_view(root) == root_package_of(*metadata),
{
    metadata.root_package().map(|package| PackageMetadata {
        name: package.name.to_string(),
        version: package.version.to_string(),
        description: package.description.clone(),
        authors: package.authors.clone(),
        homepage: package.homepage.clone(),
        license: package.license.clone(),
    })
}

/// The outcome for a root package that was looked for: the package where
/// there is one and it is well formed.
pub open spec fn root_outcome(root: Option<PackageView>) -> Result<PackageView, ResolutionError> {
    match root {
        None => Err(ResolutionError::NoRootPackage),
        Some(package) => if package.well_formed() {
            Ok(package)
        } else {
            Err(ResolutionError::Malformed)
        },
    }
}

/// The outcome for an answered or failed query.
pub open spec fn manifest_outcome(queried: Result<Metadata, cargo_metadata::Error>) -> Result<
    PackageView,
    ResolutionError,
> {
    match queried {
        Ok(metadata) => root_outcome(root_package_of(metadata)),
        Err(_) => Err(ResolutionError::Malformed),
    }
}

/// The outcome of a resolution: of the query where a manifest was located.
pub open spec fn resolution_outcome(
    located: Option<Result<Metadata, cargo_metadata::Error>>,
) -> Result<PackageView, ResolutionError> {
    match located {
        Some(queried) => manifest_outcome(queried),
        None => Err(ResolutionError::NotFound),
    }
}

/// Whether `result` is `outcome`, the package taken by its view.
pub open spec fn is_outcome(
    result: Result<PackageMetadata, ResolutionError>,
    outcome: Result<PackageView, ResolutionError>,
) -> bool {
    match result {
        Ok(package) => outcome == Ok::<PackageView, ResolutionError>(package@),
        Err(error) => outcome == Err::<PackageView, ResolutionError>(error),
    }
}

/// A workspace without a root package is reported as such: where the query
/// was answered and the answer has no root package, the outcome is
/// `NoRootPackage`.
pub proof fn lemma_missing_root_package(metadata: Metadata)
    requires
        root_package_of(metadata) is None,
    ensures
        manifest_outcome(Ok(metadata)) == Err::<PackageView, ResolutionError>(
            ResolutionError::NoRootPackage,
        ),
        resolution_outcome(Some(Ok(metadata))) == Err::<PackageView, ResolutionError>(
            ResolutionError::NoRootPackage,
        ),
{
}

/// A resolution never gives a record without its required fields: every
/// package that it gives is well formed.
pub proof fn lemma_resolved_is_well_formed(
    located: Option<Result<Metadata, cargo_metadata::Error>>,
)
    ensures
        resolution_outcome(located) matches Ok(package) ==> package.well_formed(),
{
}

/// Accepts the root package that was found: `NoRootPackage` where there is
/// none, `Malformed` where its name or its version is empty, else the
/// package unchanged.
pub fn require_root_package(root: Option<PackageMetadata>) -> (result: Result<
    PackageMetadata,
    ResolutionError,
>)
    ensures
        match root {
            None => result == Err::<PackageMetadata, ResolutionError>(ResolutionError::NoRootPackage),
            Some(package) => if package@.well_formed() {
                result == Ok::<PackageMetadata, ResolutionError>(package)
            } else {
                result == Err::<PackageMetadata, ResolutionError>(ResolutionError::Malformed)
            },
        },
{
    match root {
        None => Err(ResolutionError::NoRootPackage),
        Some(package) => if package.is_well_formed() {
            Ok(package)
        } else {
            Err(ResolutionError::Malformed)
        },
    }
}

/// Takes the root package's metadata out of the answer to a
/// `cargo metadata` query: `Malformed` where the query failed, else what
/// [`require_root_package`] says of the root package in the answer.
pub fn parse_manifest(queried: &Result<Metadata, cargo_metadata::Error>) -> (result: Result<
    PackageMetadata,
    ResolutionError,
>)
    ensures
        is_outcome(result, manifest_outcome(*queried)),
{
    match queried {
        Ok(metadata) => require_root_package(root_package(metadata)),
        Err(_) => Err(ResolutionError::Malformed),
    }
}

/// Resolves the package metadata from what the outside steps brought:
/// `None` where no manifest was located, else the answer to the query on
/// the manifest.
pub fn resolve(located: &Option<Result<Metadata, cargo_metadata::Error>>) -> (result: Result<
    PackageMetadata,
    ResolutionError,
>)
    ensures
        is_outcome(result, resolution_outcome(*located)),
{
    match located {
        Some(queried) => parse_manifest(queried),
        None => Err(ResolutionError::NotFound),
    }
}

} // verus!
