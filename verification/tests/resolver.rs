use cargo_metadata::{Metadata, MetadataCommand};
use cargo_pkgbuild::metadata::PackageMetadata;
use cargo_pkgbuild::recipe::generate_pkgbuild;
use cargo_pkgbuild::resolver::{parse_manifest, require_root_package, resolve, ResolutionError};

/// What `cargo metadata` prints for one package, as far as this library
/// reads it.
fn package(name: &str, version: &str, directory: &str, fields: &str) -> String {
    format!(
        "{{\"name\": \"{name}\", \"version\": \"{version}\", \
          \"id\": \"{name} {version} (path+file://{directory})\", \
          \"source\": null, \"dependencies\": [], \"targets\": [], \"features\": {{}}, \
          \"manifest_path\": \"{directory}/Cargo.toml\"{fields}}}"
    )
}

/// What `cargo metadata` prints for a workspace at `/work` with these
/// packages and this dependency graph.
fn answer(packages: &[String], resolve: &str) -> String {
    format!(
        "{{\"packages\": [{}], \"workspace_members\": [], \"resolve\": {}, \
          \"target_directory\": \"/work/target\", \"version\": 1, \"workspace_root\": \"/work\"}}",
        packages.join(", "),
        resolve
    )
}

fn rooted_at(id: &str) -> String {
    format!("{{\"nodes\": [], \"root\": \"{}\"}}", id)
}

fn parsed(json: &str) -> Metadata {
    MetadataCommand::parse(json).unwrap()
}

fn record(name: &str, version: &str) -> PackageMetadata {
    PackageMetadata {
        name: name.to_string(),
        version: version.to_string(),
        description: None,
        authors: Vec::new(),
        homepage: None,
        license: None,
    }
}

#[test]
fn root_package_is_taken_with_all_its_fields() {
    let fields = ", \"description\": \"A \\\"neat\\\" tool\", \
                  \"authors\": [\"Jane Doe\", \"John Roe <john@example.org>\"], \
                  \"homepage\": \"https://example.org/foo\", \"license\": \"MIT OR Apache-2.0\"";
    let json = answer(
        &[package("dep", "0.2.0", "/deps/dep", ""), package("foo", "1.0.0", "/work", fields)],
        &rooted_at("foo 1.0.0 (path+file:///work)"),
    );
    let expected = PackageMetadata {
        name: "foo".to_string(),
        version: "1.0.0".to_string(),
        description: Some("A \"neat\" tool".to_string()),
        authors: vec!["Jane Doe".to_string(), "John Roe <john@example.org>".to_string()],
        homepage: Some("https://example.org/foo".to_string()),
        license: Some("MIT OR Apache-2.0".to_string()),
    };
    assert_eq!(parse_manifest(&Ok(parsed(&json))), Ok(expected));
}

#[test]
fn root_package_without_optional_fields() {
    let json = answer(
        &[package("foo", "1.0.0", "/work", "")],
        &rooted_at("foo 1.0.0 (path+file:///work)"),
    );
    assert_eq!(parse_manifest(&Ok(parsed(&json))), Ok(record("foo", "1.0.0")));
}

#[test]
fn root_package_is_the_one_that_the_graph_names() {
    let packages = [
        package("first", "0.1.0", "/work/first", ""),
        package("second", "0.2.0", "/work/second", ""),
        package("third", "0.3.0", "/work/third", ""),
    ];
    let json = answer(&packages, &rooted_at("second 0.2.0 (path+file:///work/second)"));
    assert_eq!(parse_manifest(&Ok(parsed(&json))), Ok(record("second", "0.2.0")));
}

#[test]
fn root_package_without_a_graph_is_the_one_at_the_workspace_root() {
    let packages = [
        package("member", "0.1.0", "/work/member", ""),
        package("top", "2.0.0", "/work", ""),
    ];
    let json = answer(&packages, "null");
    assert_eq!(parse_manifest(&Ok(parsed(&json))), Ok(record("top", "2.0.0")));
}

#[test]
fn version_is_written_as_semver_shows_it() {
    let json = answer(
        &[package("foo", "1.2.3-beta.1+exp.sha.5114f85", "/work", "")],
        &rooted_at("foo 1.2.3-beta.1+exp.sha.5114f85 (path+file:///work)"),
    );
    assert_eq!(
        parse_manifest(&Ok(parsed(&json))),
        Ok(record("foo", "1.2.3-beta.1+exp.sha.5114f85"))
    );
}

#[test]
fn workspace_without_root_package() {
    let packages = [
        package("first", "0.1.0", "/work/first", ""),
        package("second", "0.2.0", "/work/second", ""),
    ];
    let json = answer(&packages, "{\"nodes\": [], \"root\": null}");
    assert_eq!(parse_manifest(&Ok(parsed(&json))), Err(ResolutionError::NoRootPackage));
    assert_eq!(resolve(&Some(Ok(parsed(&json)))), Err(ResolutionError::NoRootPackage));
}

#[test]
fn workspace_without_root_package_and_without_a_graph() {
    let packages = [package("member", "0.1.0", "/work/member", "")];
    let json = answer(&packages, "null");
    assert_eq!(parse_manifest(&Ok(parsed(&json))), Err(ResolutionError::NoRootPackage));
}

#[test]
fn workspace_without_any_package() {
    let json = answer(&[], "{\"nodes\": [], \"root\": null}");
    assert_eq!(parse_manifest(&Ok(parsed(&json))), Err(ResolutionError::NoRootPackage));
}

#[test]
fn failed_query_is_malformed() {
    assert_eq!(
        parse_manifest(&Err(cargo_metadata::Error::NoJson)),
        Err(ResolutionError::Malformed)
    );
    assert_eq!(
        parse_manifest(&Err(cargo_metadata::Error::CargoMetadata {
            stderr: "error: failed to parse manifest".to_string(),
        })),
        Err(ResolutionError::Malformed)
    );
}

#[test]
fn answer_that_cannot_be_read_is_malformed() {
    assert_eq!(parse_manifest(&MetadataCommand::parse("{")), Err(ResolutionError::Malformed));
    assert_eq!(parse_manifest(&MetadataCommand::parse("")), Err(ResolutionError::Malformed));
}

#[test]
fn package_without_a_name_or_version_is_malformed() {
    let nameless = "{\"version\": \"1.0.0\", \"id\": \"x\", \"dependencies\": [], \
                    \"targets\": [], \"features\": {}, \"manifest_path\": \"/work/Cargo.toml\"}";
    let json = answer(&[nameless.to_string()], "null");
    assert_eq!(parse_manifest(&MetadataCommand::parse(&json)), Err(ResolutionError::Malformed));
    let versionless = "{\"name\": \"foo\", \"id\": \"x\", \"dependencies\": [], \
                       \"targets\": [], \"features\": {}, \"manifest_path\": \"/work/Cargo.toml\"}";
    let json = answer(&[versionless.to_string()], "null");
    assert_eq!(parse_manifest(&MetadataCommand::parse(&json)), Err(ResolutionError::Malformed));
}

#[test]
fn root_package_with_an_empty_name_is_malformed() {
    let json = answer(
        &[package("", "1.0.0", "/work", "")],
        &rooted_at(" 1.0.0 (path+file:///work)"),
    );
    assert_eq!(parse_manifest(&Ok(parsed(&json))), Err(ResolutionError::Malformed));
}

#[test]
fn no_manifest_is_not_found() {
    assert_eq!(resolve(&None), Err(ResolutionError::NotFound));
}

#[test]
fn located_manifest_is_resolved_by_its_query() {
    let json = answer(
        &[package("foo", "1.0.0", "/work", "")],
        &rooted_at("foo 1.0.0 (path+file:///work)"),
    );
    assert_eq!(resolve(&Some(Ok(parsed(&json)))), Ok(record("foo", "1.0.0")));
    assert_eq!(
        resolve(&Some(Err(cargo_metadata::Error::NoJson))),
        Err(ResolutionError::Malformed)
    );
}

#[test]
fn missing_root_package_is_reported() {
    assert_eq!(require_root_package(None), Err(ResolutionError::NoRootPackage));
}

#[test]
fn well_formed_root_package_is_kept() {
    let mut root = record("foo", "1.0.0");
    root.description = Some(String::new());
    root.authors = vec![String::new()];
    assert_eq!(require_root_package(Some(root.clone())), Ok(root));
}

#[test]
fn root_package_without_required_text_is_malformed() {
    assert_eq!(require_root_package(Some(record("", "1.0.0"))), Err(ResolutionError::Malformed));
    assert_eq!(require_root_package(Some(record("foo", ""))), Err(ResolutionError::Malformed));
    assert_eq!(require_root_package(Some(record("", ""))), Err(ResolutionError::Malformed));
}

#[test]
fn well_formed_means_name_and_version() {
    assert!(record("foo", "1.0.0").is_well_formed());
    assert!(record("f", "0").is_well_formed());
    assert!(!record("", "1.0.0").is_well_formed());
    assert!(!record("foo", "").is_well_formed());
}

#[test]
fn resolved_metadata_gives_its_recipe() {
    let fields = ", \"description\": \"A \\\"neat\\\" tool\", \"authors\": [\"Jane Doe\"], \
                  \"license\": \"MIT\"";
    let json = answer(
        &[package("foo", "1.0.0", "/work", fields)],
        &rooted_at("foo 1.0.0 (path+file:///work)"),
    );
    let manifest = resolve(&Some(MetadataCommand::parse(&json))).unwrap();
    let mut recipe = String::new();
    generate_pkgbuild(&manifest, &mut recipe);
    assert!(recipe.starts_with(
        "# Maintainer: Jane Doe\npkgname=foo\npkgver=1.0.0\npkgrel=1\n\
         makedepends=('rust' 'cargo')\narch=('i686' 'x86_64' 'armv6h' 'armv7h')\n\
         pkgdesc=\"A \\\"neat\\\" tool\"\nlicense=('MIT')\n\n"
    ));
    assert!(!recipe.contains("url="));
}
