//! The recipe: the entries of a `PKGBUILD` and the text they make up.

use vstd::prelude::*;
use crate::escape::{escape, escaped};
use crate::metadata::{PackageMetadata, PackageView};

verus! {

/// What a maintainer comment begins with.
pub const MAINTAINER_PREFIX: &'static str = "# Maintainer: ";

/// The key of the package's name.
pub const NAME_KEY: &'static str = "pkgname=";

/// The key of the package's version.
pub const VERSION_KEY: &'static str = "pkgver=";

/// The release counter, which is always 1.
pub const RELEASE_LINE: &'static str = "pkgrel=1";

/// The two tools that building needs.
pub const MAKEDEPENDS_LINE: &'static str = "makedepends=('rust' 'cargo')";

/// The four supported architectures.
pub const ARCH_LINE: &'static str = "arch=('i686' 'x86_64' 'armv6h' 'armv7h')";

/// The key of the description, with the opening double quote.
pub const DESCRIPTION_OPEN: &'static str = "pkgdesc=\"";

/// The key of the home page, with the opening double quote.
pub const URL_OPEN: &'static str = "url=\"";

/// The closing double quote of a description or a home page.
pub const QUOTE_CLOSE: &'static str = "\"";

/// The key of the license, with the opening of its one-item list.
pub const LICENSE_OPEN: &'static str = "license=('";

/// The closing of the license's one-item list.
pub const LICENSE_CLOSE: &'static str = "')";

/// The phase that locks and fetches the dependencies for the target
/// architecture.
pub const PREPARE_BLOCK: &'static str = r#"
# Generated in accordance to https://wiki.archlinux.org/title/Rust_package_guidelines.
# Might require further modification depending on the package involved.
prepare() {
  cargo fetch --locked --target "$CARCH-unknown-linux-gnu"
}"#;

/// The phase that compiles in release mode, with all features and the
/// stable toolchain.
pub const BUILD_BLOCK: &'static str = r#"
build() {
  export RUSTUP_TOOLCHAIN=stable
  export CARGO_TARGET_DIR=target
  cargo build --frozen --release --all-features
}"#;

/// The phase that runs the tests, with all features and the stable
/// toolchain.
pub const CHECK_BLOCK: &'static str = r#"
check() {
  export RUSTUP_TOOLCHAIN=stable
  cargo test --frozen --all-features
}"#;

/// The phase that installs the release binary, named after the package,
/// under `/usr/bin`.
pub const PACKAGE_BLOCK: &'static str = r#"
package() {
  install -Dm0755 -t "$pkgdir/usr/bin/" "target/release/$pkgname"
}"#;

/// The comment that names one maintainer.
pub open spec fn maintainer_line(author: Seq<char>) -> Seq<char> {
    MAINTAINER_PREFIX@ + author
}

/// One maintainer comment for each author, in the authors' order.
pub open spec fn maintainer_lines(authors: Seq<Seq<char>>) -> Seq<Seq<char>> {
    Seq::new(authors.len(), |i: int| maintainer_line(authors[i]))
}

/// The assignment of the package's name.
pub open spec fn name_line(name: Seq<char>) -> Seq<char> {
    NAME_KEY@ + name
}

/// The assignment of the package's version.
pub open spec fn version_line(version: Seq<char>) -> Seq<char> {
    VERSION_KEY@ + version
}

/// The five assignments that every recipe holds: name, version, release
/// counter, build-time dependencies and supported architectures.
pub open spec fn header_lines(name: Seq<char>, version: Seq<char>) -> Seq<Seq<char>> {
    seq![
        name_line(name),
        version_line(version),
        RELEASE_LINE@,
        MAKEDEPENDS_LINE@,
        ARCH_LINE@,
    ]
}

/// The assignment of the description, escaped and between double quotes.
pub open spec fn description_line(description: Seq<char>) -> Seq<char> {
    DESCRIPTION_OPEN@ + escaped(description) + QUOTE_CLOSE@
}

/// The assignment of the home page, as it is and between double quotes.
pub open spec fn url_line(homepage: Seq<char>) -> Seq<char> {
    URL_OPEN@ + homepage + QUOTE_CLOSE@
}

/// The assignment of the license, as it is, as a list of one
/// single-quoted item.
pub open spec fn license_line(license: Seq<char>) -> Seq<char> {
    LICENSE_OPEN@ + license + LICENSE_CLOSE@
}

/// The one entry of a present field, no entry for an absent one.
pub open spec fn optional_line(line: Option<Seq<char>>) -> Seq<Seq<char>> {
    match line {
        Some(l) => seq![l],
        None => Seq::empty(),
    }
}

/// The entry of the description, where there is one.
pub open spec fn description_lines(m: PackageView) -> Seq<Seq<char>> {
    optional_line(
        match m.description {
            Some(d) => Some(description_line(d)),
            None => None,
        },
    )
}

/// The entry of the home page, where there is one.
pub open spec fn url_lines(m: PackageView) -> Seq<Seq<char>> {
    optional_line(
        match m.homepage {
            Some(u) => Some(url_line(u)),
            None => None,
        },
    )
}

/// The entry of the license, where there is one.
pub open spec fn license_lines(m: PackageView) -> Seq<Seq<char>> {
    optional_line(
        match m.license {
            Some(l) => Some(license_line(l)),
            None => None,
        },
    )
}

/// The entries of the optional fields that are present: description, then
/// home page, then license.
pub open spec fn optional_lines(m: PackageView) -> Seq<Seq<char>> {
    description_lines(m) + url_lines(m) + license_lines(m)
}

/// The four shell functions of the packaging phases: `prepare`, `build`,
/// `check` and `package`. Each begins with an empty line.
pub open spec fn phase_blocks() -> Seq<Seq<char>> {
    seq![PREPARE_BLOCK@, BUILD_BLOCK@, CHECK_BLOCK@, PACKAGE_BLOCK@]
}

/// The entries of the recipe for `m`, in the order in which they are
/// written: maintainers, header, optional fields, phases.
pub open spec fn recipe_entries(m: PackageView) -> Seq<Seq<char>> {
    maintainer_lines(m.authors) + header_lines(m.name, m.version) + optional_lines(m)
        + phase_blocks()
}

/// The text made of `entries`: each entry followed by a line break.
pub open spec fn joined(entries: Seq<Seq<char>>) -> Seq<char>
    decreases entries.len(),
{
    if entries.len() == 0 {
        Seq::empty()
    } else {
        joined(entries.drop_last()) + entries.last() + seq!['\n']
    }
}

/// The text of the recipe for `m`.
pub open spec fn recipe_text(m: PackageView) -> Seq<char> {
    joined(recipe_entries(m))
}

/// Writing one more entry appends it and a line break to the text.
pub proof fn lemma_joined_push(entries: Seq<Seq<char>>, entry: Seq<char>)
    ensures
        joined(entries.push(entry)) == joined(entries) + entry + seq!['\n'],
{
    assert(entries.push(entry).drop_last() == entries);
}

/// The text of two runs of entries, one after the other, is the text of the
/// first followed by the text of the second.
pub proof fn lemma_joined_concat(first: Seq<Seq<char>>, second: Seq<Seq<char>>)
    ensures
        joined(first + second) == joined(first) + joined(second),
    decreases second.len(),
{
    if second.len() == 0 {
        assert(first + second == first);
    } else {
        lemma_joined_concat(first, second.drop_last());
        assert((first + second).drop_last() == first + second.drop_last());
    }
}

/// The entries that follow the maintainers' comments.
pub open spec fn body_entries(m: PackageView) -> Seq<Seq<char>> {
    header_lines(m.name, m.version) + optional_lines(m) + phase_blocks()
}

/// How many entries a field gives: one where it is present, none where it
/// is absent.
pub open spec fn present(field: Option<Seq<char>>) -> int {
    if field is Some {
        1
    } else {
        0
    }
}

/// The recipe is a function of the metadata's contents: two records that
/// hold the same texts have the same recipe, character for character.
pub proof fn lemma_recipe_deterministic(a: PackageMetadata, b: PackageMetadata)
    requires
        a@ == b@,
    ensures
        recipe_text(a@) == recipe_text(b@),
{
}

/// The maintainers come first: entry `i` is the comment for author `i`, as
/// the author was given, and the text begins with these comments, one on
/// each line, before anything else.
pub proof fn lemma_maintainers_first(m: PackageView)
    ensures
        recipe_entries(m).len() > m.authors.len(),
        forall|i: int|
            0 <= i < m.authors.len() ==> #[trigger] recipe_entries(m)[i] == MAINTAINER_PREFIX@
                + m.authors[i],
        recipe_entries(m).skip(m.authors.len() as int) == body_entries(m),
        recipe_text(m) == joined(maintainer_lines(m.authors)) + joined(body_entries(m)),
{
    assert(recipe_entries(m) == maintainer_lines(m.authors) + body_entries(m));
    lemma_joined_concat(maintainer_lines(m.authors), body_entries(m));
}

/// The name and the version are always there: right after the maintainers
/// stand the name's entry and then the version's, each holding the value as
/// it was given.
pub proof fn lemma_name_and_version(m: PackageView)
    ensures
        recipe_entries(m).len() > m.authors.len() + 1,
        recipe_entries(m)[m.authors.len() as int] == NAME_KEY@ + m.name,
        recipe_entries(m)[m.authors.len() as int + 1] == VERSION_KEY@ + m.version,
{
}

/// The optional fields give exactly their own entries, in the order
/// description, home page, license: each present field has its entry at the
/// place that the present fields before it leave, an absent field has none,
/// and nothing else stands between the header and the phases.
pub proof fn lemma_optional_fields(m: PackageView)
    ensures
        ({
            let entries = recipe_entries(m);
            let header = m.authors.len() as int;
            let first = header + 5;
            let d = present(m.description);
            let u = present(m.homepage);
            let l = present(m.license);
            &&& entries.len() == first + d + u + l + 4
            &&& entries.subrange(header, first) == header_lines(m.name, m.version)
            &&& (m.description matches Some(text) ==> entries[first] == description_line(text))
            &&& (m.homepage matches Some(text) ==> entries[first + d] == url_line(text))
            &&& (m.license matches Some(text) ==> entries[first + d + u] == license_line(text))
            &&& entries.skip(first + d + u + l) == phase_blocks()
        }),
{
}

fn line_of(open: &str, value: &str, close: &str) -> (line: String)
    ensures
        line@ == open@ + value@ + close@,
{
    let mut line = String::from_str(open);
    line.append(value);
    line.append(close);
    line
}

fn write_entry(
    out: &mut String,
    entry: &str,
    Ghost(start): Ghost<Seq<char>>,
    Ghost(written): Ghost<Seq<Seq<char>>>,
)
    requires
        old(out)@ == start + joined(written),
    ensures
        final(out)@ == start + joined(written.push(entry@)),
{
    out.append(entry);
    out.push('\n');
    proof {
        lemma_joined_push(written, entry@);
        assert(out@ == start + (joined(written) + entry@ + seq!['\n']));
    }
}

fn write_maintainers(out: &mut String, authors: &Vec<String>)
    ensures
        final(out)@ == old(out)@ + joined(maintainer_lines(authors.deep_view())),
{
    let ghost start = out@;
    let ghost lines = maintainer_lines(authors.deep_view());
    assert(out@ == start + joined(lines.take(0)));
    let mut i: usize = 0;
    while i < authors.len()
        invariant
            i <= authors.len(),
            lines == maintainer_lines(authors.deep_view()),
            out@ == start + joined(lines.take(i as int)),
        decreases authors.len() - i,
    {
        let line = line_of(MAINTAINER_PREFIX, authors[i].as_str(), "");
        proof {
            reveal_strlit("");
            assert(line@ == maintainer_line(authors.deep_view()[i as int]));
            assert(lines.take(i as int).push(line@) == lines.take(i + 1));
        }
        write_entry(out, line.as_str(), Ghost(start), Ghost(lines.take(i as int)));
        i += 1;
    }
    assert(lines.take(i as int) == lines);
}

fn write_header(out: &mut String, name: &str, version: &str)
    ensures
        final(out)@ == old(out)@ + joined(header_lines(name@, version@)),
{
    let ghost start = out@;
    let ghost lines = header_lines(name@, version@);
    assert(out@ == start + joined(lines.take(0)));
    let name_entry = line_of(NAME_KEY, name, "");
    let version_entry = line_of(VERSION_KEY, version, "");
    proof {
        reveal_strlit("");
        assert(name_entry@ == name_line(name@));
        assert(version_entry@ == version_line(version@));
        assert(lines.take(0).push(name_entry@) == lines.take(1));
        assert(lines.take(1).push(version_entry@) == lines.take(2));
        assert(lines.take(2).push(RELEASE_LINE@) == lines.take(3));
        assert(lines.take(3).push(MAKEDEPENDS_LINE@) == lines.take(4));
        assert(lines.take(4).push(ARCH_LINE@) == lines);
    }
    write_entry(out, name_entry.as_str(), Ghost(start), Ghost(lines.take(0)));
    write_entry(out, version_entry.as_str(), Ghost(start), Ghost(lines.take(1)));
    write_entry(out, RELEASE_LINE, Ghost(start), Ghost(lines.take(2)));
    write_entry(out, MAKEDEPENDS_LINE, Ghost(start), Ghost(lines.take(3)));
    write_entry(out, ARCH_LINE, Ghost(start), Ghost(lines.take(4)));
}

fn write_optional(out: &mut String, line: Option<String>)
    ensures
        final(out)@ == old(out)@ + joined(optional_line(line.deep_view())),
{
    let ghost start = out@;
    assert(out@ == start + joined(Seq::<Seq<char>>::empty()));
    if let Some(entry) = line {
        write_entry(out, entry.as_str(), Ghost(start), Ghost(Seq::empty()));
        assert(Seq::<Seq<char>>::empty().push(entry@) == optional_line(line.deep_view()));
    }
}

fn write_phases(out: &mut String)
    ensures
        final(out)@ == old(out)@ + joined(phase_blocks()),
{
    let ghost start = out@;
    let ghost blocks = phase_blocks();
    assert(out@ == start + joined(blocks.take(0)));
    proof {
        assert(blocks.take(0).push(PREPARE_BLOCK@) == blocks.take(1));
        assert(blocks.take(1).push(BUILD_BLOCK@) == blocks.take(2));
        assert(blocks.take(2).push(CHECK_BLOCK@) == blocks.take(3));
        assert(blocks.take(3).push(PACKAGE_BLOCK@) == blocks);
    }
    write_entry(out, PREPARE_BLOCK, Ghost(start), Ghost(blocks.take(0)));
    write_entry(out, BUILD_BLOCK, Ghost(start), Ghost(blocks.take(1)));
    write_entry(out, CHECK_BLOCK, Ghost(start), Ghost(blocks.take(2)));
    write_entry(out, PACKAGE_BLOCK, Ghost(start), Ghost(blocks.take(3)));
}

fn description_entry(description: &Option<String>) -> (line: Option<String>)
    ensures
        line.deep_view() == match description.deep_view() {
            Some(text) => Some(description_line(text)),
            None => None,
        },
{
    match description {
        Some(text) => {
            let value = escape(text.as_str());
            Some(line_of(DESCRIPTION_OPEN, value.as_str(), QUOTE_CLOSE))
        },
        None => None,
    }
}

fn url_entry(homepage: &Option<String>) -> (line: Option<String>)
    ensures
        line.deep_view() == match homepage.deep_view() {
            Some(text) => Some(url_line(text)),
            None => None,
        },
{
    match homepage {
        Some(text) => Some(line_of(URL_OPEN, text.as_str(), QUOTE_CLOSE)),
        None => None,
    }
}

fn license_entry(license: &Option<String>) -> (line: Option<String>)
    ensures
        line.deep_view() == match license.deep_view() {
            Some(text) => Some(license_line(text)),
            None => None,
        },
{
    match license {
        Some(text) => Some(line_of(LICENSE_OPEN, text.as_str(), LICENSE_CLOSE)),
        None => None,
    }
}

/// Writes the recipe for `manifest` to the end of `output`: a maintainer
/// comment for each author, the header, an assignment for each optional
/// field that is present, and the four packaging phases. What `output` held
/// before stays as it was.
pub fn generate_pkgbuild(manifest: &PackageMetadata, output: &mut String)
    ensures
        final(output)@ == old(output)@ + recipe_text(manifest@),
{
    let ghost m = manifest@;
    let ghost start = output@;
    write_maintainers(output, &manifest.authors);
    write_header(output, manifest.name.as_str(), manifest.version.as_str());
    write_optional(output, description_entry(&manifest.description));
    write_optional(output, url_entry(&manifest.homepage));
    write_optional(output, license_entry(&manifest.license));
    write_phases(output);
    proof {
        let maintainers = maintainer_lines(m.authors);
        let header = header_lines(m.name, m.version);
        lemma_joined_concat(maintainers, header);
        lemma_joined_concat(description_lines(m), url_lines(m));
        lemma_joined_concat(description_lines(m) + url_lines(m), license_lines(m));
        lemma_joined_concat(maintainers + header, optional_lines(m));
        lemma_joined_concat(maintainers + header + optional_lines(m), phase_blocks());
        assert(output@ == start + (joined(maintainers) + joined(header) + (joined(
            description_lines(m),
        ) + joined(url_lines(m)) + joined(license_lines(m))) + joined(phase_blocks())));
    }
}

} // verus!
