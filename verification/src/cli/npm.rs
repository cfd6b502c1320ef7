//! Provider packages on an npm registry.
use crate::table;
use crate::text;
use base64::Engine;
use sha2::Digest;
use vstd::prelude::*;
use vstd::string::*;

verus! {

pub const DEFAULT_NPM_REGISTRY: &'static str = "https://registry.npmjs.org";

pub const DEFAULT_PROVIDER_SCOPE: &'static str = "dicta-asr";

pub const DEFAULT_PROVIDER_KEYWORD: &'static str = "dicta-provider";

/// The name by which a package is asked for: in the default scope, unless it has one.
pub open spec fn canonical(name: Seq<char>) -> Seq<char> {
    let trimmed = text::trimmed(name);
    if trimmed.len() > 0 && trimmed[0] == '@' {
        trimmed
    } else {
        "@dicta-asr/"@ + trimmed
    }
}

pub fn canonical_provider_package_name(name: &str) -> (r: String)
    ensures
        r@ == canonical(name@),
{
    let trimmed = text::trim(name);
    let chars = text::to_chars(trimmed.as_str());
    if chars.len() > 0 && chars[0] == '@' {
        trimmed
    } else {
        text::cat("@dicta-asr/", trimmed.as_str())
    }
}

/// A name that is canonical stays as it is.
pub proof fn law_canonical_name_stays(name: Seq<char>)
    ensures
        canonical(canonical(name)) == canonical(name),
{
    let trimmed = text::trimmed(name);
    let c = canonical(name);
    text::lemma_trimmed_ink(name);
    reveal_strlit("@dicta-asr/");
    assert(text::inked(c)) by {
        assert(c[0] == '@');
        if trimmed.len() > 0 && trimmed[0] == '@' {
        } else if trimmed.len() > 0 {
            assert(c.last() == trimmed.last());
        } else {
            assert(c =~= "@dicta-asr/"@);
            assert(c.last() == '/');
        }
    }
    text::lemma_inked_is_trimmed(c);
}

/// A package's name as it stands in a URL.
pub open spec fn url_name(name: Seq<char>) -> Seq<char> {
    match text::cut(name, '/') {
        Some((scope, package)) => scope + "%2F"@ + package,
        None => name,
    }
}

pub fn npm_package_url_name(name: &str) -> (r: String)
    ensures
        r@ == url_name(name@),
{
    match text::split_once(name, '/') {
        Some((scope, package)) => text::cat3(scope.as_str(), "%2F", package.as_str()),
        None => text::copy(name),
    }
}

/// The provider that a package holds.
pub fn provider_id_from_package_name(name: &str) -> (r: String)
    ensures
        r@ == text::after_last(name@, '/'),
{
    text::part_after_last(name, '/')
}

/// A value is allowed by a list that rules values out with `!` and names others.
pub open spec fn allowed(values: Seq<Seq<char>>, current: Seq<char>) -> bool {
    &&& !values.contains("!"@ + current)
    &&& (values.contains(current) && !ruled_out(current)) || forall|i: int|
        0 <= i < values.len() ==> ruled_out(#[trigger] values[i])
}

pub open spec fn ruled_out(value: Seq<char>) -> bool {
    value.len() > 0 && value[0] == '!'
}

pub fn npm_list_allows(values: &Vec<String>, current: &str) -> (r: bool)
    ensures
        r == allowed(text::texts(values@), current@),
{
    let ghost all = text::texts(values@);
    let denied = text::cat("!", current);
    let n: usize = values.len();
    let mut found = false;
    let mut only_denials = true;
    let mut i: usize = 0;
    while i < n
        invariant
            n == values.len(),
            all == text::texts(values@),
            denied@ == "!"@ + current@,
            i <= n,
            forall|k: int| 0 <= k < i ==> #[trigger] all[k] != denied@,
            found <==> exists|k: int|
                0 <= k < i && #[trigger] all[k] == current@ && !ruled_out(current@),
            only_denials <==> forall|k: int| 0 <= k < i ==> ruled_out(#[trigger] all[k]),
        decreases n - i,
    {
        let value = values[i].as_str();
        assert(all[i as int] == value@);
        if text::same(value, denied.as_str()) {
            assert(all.contains(denied@));
            return false;
        }
        let chars = text::to_chars(value);
        if !(chars.len() > 0 && chars[0] == '!') {
            only_denials = false;
            if text::same(value, current) {
                found = true;
            }
        }
        i = i + 1;
    }
    assert(!all.contains(denied@));
    if found {
        assert(all.contains(current@));
    }
    found || only_denials
}

/// A list that rules the current value out never allows it, whatever else it names.
pub proof fn law_denial_wins(values: Seq<Seq<char>>, current: Seq<char>)
    requires
        values.contains("!"@ + current),
    ensures
        !allowed(values, current),
{
}

/// The system, by the name that npm has for it.
pub open spec fn npm_os(os: Seq<char>) -> Seq<char> {
    if os == "macos"@ {
        "darwin"@
    } else if os == "windows"@ {
        "win32"@
    } else {
        os
    }
}

pub fn npm_current_os(os: &str) -> (r: String)
    ensures
        r@ == npm_os(os@),
{
    if text::same(os, "macos") {
        text::copy("darwin")
    } else if text::same(os, "windows") {
        text::copy("win32")
    } else {
        text::copy(os)
    }
}

/// The processor, by the name that npm has for it.
pub open spec fn npm_cpu(arch: Seq<char>) -> Seq<char> {
    if arch == "aarch64"@ {
        "arm64"@
    } else if arch == "x86_64"@ {
        "x64"@
    } else if arch == "x86"@ {
        "ia32"@
    } else {
        arch
    }
}

pub fn npm_current_cpu(arch: &str) -> (r: String)
    ensures
        r@ == npm_cpu(arch@),
{
    if text::same(arch, "aarch64") {
        text::copy("arm64")
    } else if text::same(arch, "x86_64") {
        text::copy("x64")
    } else if text::same(arch, "x86") {
        text::copy("ia32")
    } else {
        text::copy(arch)
    }
}

#[derive(Debug, Clone, PartialEq, Eq)]
pub struct NpmPackageDist {
    pub tarball: String,
    pub integrity: Option<String>,
}

#[derive(Debug, Clone, PartialEq, Eq)]
pub struct NpmPackageVersion {
    pub os: Vec<String>,
    pub cpu: Vec<String>,
    /// The packages that may be there, by name.
    pub optional_dependencies: Vec<(String, String)>,
    pub dist: NpmPackageDist,
}

#[verifier::ext_equal]
pub struct VersionView {
    pub os: Seq<Seq<char>>,
    pub cpu: Seq<Seq<char>>,
    pub optional_dependencies: Seq<(Seq<char>, Seq<char>)>,
    pub tarball: Seq<char>,
    pub integrity: Option<Seq<char>>,
}

impl View for NpmPackageVersion {
    type V = VersionView;

    open spec fn view(&self) -> VersionView {
        VersionView {
            os: text::texts(self.os@),
            cpu: text::texts(self.cpu@),
            optional_dependencies: table::entries(self.optional_dependencies@),
            tarball: self.dist.tarball@,
            integrity: text::text_of(self.dist.integrity),
        }
    }
}

/// What a registry knows of a package.
#[derive(Debug, Clone, PartialEq, Eq)]
pub struct NpmPackageMetadata {
    pub name: String,
    pub dist_tags: Vec<(String, String)>,
    pub versions: Vec<(String, NpmPackageVersion)>,
}

#[verifier::ext_equal]
pub struct PackageView {
    pub name: Seq<char>,
    pub dist_tags: Seq<(Seq<char>, Seq<char>)>,
    pub versions: Seq<(Seq<char>, VersionView)>,
}

impl View for NpmPackageMetadata {
    type V = PackageView;

    open spec fn view(&self) -> PackageView {
        PackageView {
            name: self.name@,
            dist_tags: table::entries(self.dist_tags@),
            versions: table::entries(self.versions@),
        }
    }
}

/// A version without the sign before it.
pub open spec fn plain_version(requested: Seq<char>) -> Seq<char> {
    if requested.len() > 0 && (requested[0] == 'v' || requested[0] == '=' || requested[0] == '^'
        || requested[0] == '~') {
        requested.subrange(1, requested.len() as int)
    } else {
        requested
    }
}

/// The version that is meant: a version that there is, else the one that a tag stands for.
pub open spec fn resolved_version(p: PackageView, requested: Seq<char>) -> Result<
    Seq<char>,
    Seq<char>,
> {
    let asked = text::trimmed(requested);
    if asked == "*"@ {
        match table::under_name(p.dist_tags, "latest"@) {
            Some(v) => Ok(v),
            None => Err("npm package '"@ + p.name + "' has no latest dist-tag"@),
        }
    } else if table::under_name(p.versions, plain_version(asked)) is Some {
        Ok(plain_version(asked))
    } else {
        match table::under_name(p.dist_tags, asked) {
            Some(v) => Ok(v),
            None => Err(
                "npm package '"@ + p.name + "' has no version or dist-tag '"@ + asked + "'"@,
            ),
        }
    }
}

pub open spec fn text_result(r: Result<String, String>) -> Result<Seq<char>, Seq<char>> {
    match r {
        Ok(s) => Ok(s@),
        Err(e) => Err(e@),
    }
}

pub fn resolve_npm_version(metadata: &NpmPackageMetadata, requested: &str) -> (r: Result<
    String,
    String,
>)
    ensures
        text_result(r) == resolved_version(metadata@, requested@),
{
    let asked = text::trim(requested);
    if text::same(asked.as_str(), "*") {
        return match table::find(&metadata.dist_tags, "latest") {
            Some(v) => Ok(text::copy(v.as_str())),
            None => Err(
                text::cat3(
                    "npm package '",
                    metadata.name.as_str(),
                    "' has no latest dist-tag",
                ),
            ),
        };
    }
    let chars = text::to_chars(asked.as_str());
    let plain = if chars.len() > 0 && (chars[0] == 'v' || chars[0] == '=' || chars[0] == '^'
        || chars[0] == '~') {
        text::from_chars(&chars, 1, chars.len())
    } else {
        text::copy(asked.as_str())
    };
    if table::find(&metadata.versions, plain.as_str()).is_some() {
        return Ok(plain);
    }
    match table::find(&metadata.dist_tags, asked.as_str()) {
        Some(v) => Ok(text::copy(v.as_str())),
        None => Err(
            text::cat5(
                "npm package '",
                metadata.name.as_str(),
                "' has no version or dist-tag '",
                asked.as_str(),
                "'",
            ),
        ),
    }
}

/// A package whose name says that it holds the provider for one platform.
pub open spec fn platform_package(root: Seq<char>, dependency: Seq<char>) -> bool {
    ||| text::starts(dependency, root + "-"@)
    ||| dependency.contains('/') && text::starts(
        text::after_last(dependency, '/'),
        text::after_last(root, '/') + "-"@,
    )
}

pub fn is_probable_provider_platform_package(root_name: &str, dependency: &str) -> (r: bool)
    ensures
        r == platform_package(root_name@, dependency@),
{
    if text::starts_with(dependency, text::cat(root_name, "-").as_str()) {
        return true;
    }
    if !text::has_char(dependency, '/') {
        return false;
    }
    let own = text::part_after_last(dependency, '/');
    let id = provider_id_from_package_name(root_name);
    text::starts_with(own.as_str(), text::cat(id.as_str(), "-").as_str())
}

pub open spec fn supports(v: VersionView, os: Seq<char>, cpu: Seq<char>) -> bool {
    allowed(v.os, os) && allowed(v.cpu, cpu)
}

pub fn npm_package_version_matches_platform(
    package: &NpmPackageVersion,
    os: &str,
    cpu: &str,
) -> (r: bool)
    ensures
        r == supports(package@, os@, cpu@),
{
    npm_list_allows(&package.os, os) && npm_list_allows(&package.cpu, cpu)
}

/// The SHA-512 digest of some bytes.
pub uninterp spec fn sha512_digest(data: Seq<u8>) -> Seq<u8>;

/// `sha2::Sha512::digest`.
#[verifier::external_body]
fn compute_sha512(data: &Vec<u8>) -> (r: Vec<u8>)
    ensures
        r@ == sha512_digest(data@),
        r@.len() == 64,
{
    sha2::Sha512::digest(data).to_vec()
}

/// The bytes that a text stands for in the standard alphabet of base 64, with padding.
pub uninterp spec fn base64_bytes(encoded: Seq<char>) -> Option<Seq<u8>>;

pub open spec fn bytes_of(o: Option<Vec<u8>>) -> Option<Seq<u8>> {
    match o {
        Some(v) => Some(v@),
        None => None,
    }
}

/// `decode` of `base64::engine::general_purpose::STANDARD`.
#[verifier::external_body]
fn decode_base64(encoded: &str) -> (r: Option<Vec<u8>>)
    ensures
        bytes_of(r) == base64_bytes(encoded@),
{
    match base64::engine::general_purpose::STANDARD.decode(encoded) {
        Ok(bytes) => Some(bytes),
        Err(_) => None,
    }
}

/// What is wrong with data whose digest is `actual`, where its digest should be `expected`.
pub open spec fn digest_fault(expected: Option<Seq<u8>>, actual: Seq<u8>) -> Option<Seq<char>> {
    match expected {
        None => Some("failed to decode npm sha512 integrity"@),
        Some(bytes) => if bytes == actual {
            None
        } else {
            Some("npm tarball integrity check failed"@)
        },
    }
}

pub open spec fn integrity_fault(data: Seq<u8>, integrity: Seq<char>) -> Option<Seq<char>> {
    if text::starts(integrity, "sha512-"@) {
        digest_fault(
            base64_bytes(integrity.subrange("sha512-"@.len() as int, integrity.len() as int)),
            sha512_digest(data),
        )
    } else {
        Some("unsupported npm integrity algorithm: "@ + integrity)
    }
}

/// Compares a digest with the one that is expected.
pub fn check_digest(expected: &Option<Vec<u8>>, actual: &Vec<u8>) -> (r: Result<(), String>)
    ensures
        match digest_fault(bytes_of(*expected), actual@) {
            None => r is Ok,
            Some(m) => r is Err && r->Err_0@ == m,
        },
{
    match expected {
        None => Err(text::copy("failed to decode npm sha512 integrity")),
        Some(bytes) => {
            let n: usize = bytes.len();
            if n != actual.len() {
                return Err(text::copy("npm tarball integrity check failed"));
            }
            let mut i: usize = 0;
            while i < n
                invariant
                    n == bytes.len(),
                    n == actual.len(),
                    *expected == Some(*bytes),
                    i <= n,
                    forall|k: int| 0 <= k < i ==> bytes@[k] == actual@[k],
                decreases n - i,
            {
                if bytes[i] != actual[i] {
                    return Err(text::copy("npm tarball integrity check failed"));
                }
                i = i + 1;
            }
            assert(bytes@ =~= actual@);
            Ok(())
        },
    }
}

pub fn verify_npm_integrity(data: &Vec<u8>, integrity: &str) -> (r: Result<(), String>)
    ensures
        match integrity_fault(data@, integrity@) {
            None => r is Ok,
            Some(m) => r is Err && r->Err_0@ == m,
        },
{
    match text::strip_prefix(integrity, "sha512-") {
        None => Err(text::cat("unsupported npm integrity algorithm: ", integrity)),
        Some(encoded) => {
            let expected = decode_base64(encoded.as_str());
            let actual = compute_sha512(data);
            check_digest(&expected, &actual)
        },
    }
}

#[derive(Debug, Clone, PartialEq, Eq)]
pub struct NpmSearchPackage {
    pub name: String,
    pub version: String,
    pub description: Option<String>,
    pub keywords: Vec<String>,
}

#[derive(Debug, Clone, PartialEq, Eq)]
pub struct NpmProviderPackageSummary {
    pub name: String,
    pub version: String,
    pub description: Option<String>,
}

#[verifier::ext_equal]
pub struct SummaryView {
    pub name: Seq<char>,
    pub version: Seq<char>,
    pub description: Option<Seq<char>>,
}

impl View for NpmProviderPackageSummary {
    type V = SummaryView;

    open spec fn view(&self) -> SummaryView {
        SummaryView {
            name: self.name@,
            version: self.version@,
            description: text::text_of(self.description),
        }
    }
}

pub open spec fn summaries(v: Seq<NpmProviderPackageSummary>) -> Seq<SummaryView> {
    v.map_values(|s: NpmProviderPackageSummary| s@)
}

/// A registry as it is written in addresses.
pub open spec fn registry_base(registry: Seq<char>) -> Seq<char> {
    text::trimmed_end_of(text::trimmed(registry), '/')
}

pub fn normal_registry(registry: &str) -> (r: String)
    ensures
        r@ == registry_base(registry@),
{
    text::trim_end_of(text::trim(registry).as_str(), '/')
}

/// A scope without the sign before it.
pub open spec fn bare_scope(scope: Seq<char>) -> Seq<char> {
    text::trimmed_start_of(text::trimmed(scope), '@')
}

pub fn normal_scope(scope: &str) -> (r: String)
    ensures
        r@ == bare_scope(scope@),
{
    text::trim_start_of(text::trim(scope).as_str(), '@')
}

/// What a registry is asked when providers are looked for: the address, the words and the
/// number of answers.
pub fn search_query(registry: &str, scope: &str, keyword: &str, limit: u64) -> (r: (
    String,
    String,
    String,
))
    ensures
        r.0@ == registry_base(registry@) + "/-/v1/search"@,
        r.1@ == "scope:"@ + bare_scope(scope@) + " keywords:"@ + keyword@,
        r.2@ == text::decimal(
            if limit < 1 {
                1
            } else {
                limit as nat
            },
        ),
{
    let url = text::cat(normal_registry(registry).as_str(), "/-/v1/search");
    let words = text::cat4("scope:", normal_scope(scope).as_str(), " keywords:", keyword);
    let size: u64 = if limit < 1 {
        1
    } else {
        limit
    };
    (url, words, text::number(size))
}

/// A package of the scope that bears the keyword.
pub open spec fn is_provider_package(
    p: NpmSearchPackage,
    scope: Seq<char>,
    keyword: Seq<char>,
) -> bool {
    text::starts(p.name@, "@"@ + bare_scope(scope) + "/"@) && text::texts(p.keywords@).contains(
        keyword,
    )
}

pub open spec fn provider_packages(
    found: Seq<NpmSearchPackage>,
    scope: Seq<char>,
    keyword: Seq<char>,
) -> Seq<SummaryView>
    decreases found.len(),
{
    if found.len() == 0 {
        Seq::<SummaryView>::empty()
    } else {
        let p = found.last();
        let before = provider_packages(found.drop_last(), scope, keyword);
        if is_provider_package(p, scope, keyword) {
            before.push(
                SummaryView {
                    name: p.name@,
                    version: p.version@,
                    description: text::text_of(p.description),
                },
            )
        } else {
            before
        }
    }
}

fn has_text(values: &Vec<String>, value: &str) -> (r: bool)
    ensures
        r == text::texts(values@).contains(value@),
{
    let ghost all = text::texts(values@);
    let n: usize = values.len();
    let mut i: usize = 0;
    while i < n
        invariant
            n == values.len(),
            all == text::texts(values@),
            i <= n,
            forall|k: int| 0 <= k < i ==> #[trigger] all[k] != value@,
        decreases n - i,
    {
        assert(all[i as int] == values@[i as int]@);
        if text::same(values[i].as_str(), value) {
            assert(all.contains(value@));
            return true;
        }
        i = i + 1;
    }
    false
}

/// Keeps the provider packages among those that a search found.
pub fn filter_search(found: &Vec<NpmSearchPackage>, scope: &str, keyword: &str) -> (r: Vec<
    NpmProviderPackageSummary,
>)
    ensures
        summaries(r@) == provider_packages(found@, scope@, keyword@),
{
    let prefix = text::cat3("@", normal_scope(scope).as_str(), "/");
    let mut kept: Vec<NpmProviderPackageSummary> = Vec::new();
    let n: usize = found.len();
    let mut i: usize = 0;
    assert(summaries(kept@) =~= provider_packages(found@.take(0), scope@, keyword@));
    while i < n
        invariant
            n == found.len(),
            prefix@ == "@"@ + bare_scope(scope@) + "/"@,
            i <= n,
            summaries(kept@) == provider_packages(found@.take(i as int), scope@, keyword@),
        decreases n - i,
    {
        let ghost more = found@.take(i + 1);
        assert(more.drop_last() =~= found@.take(i as int));
        let p = &found[i];
        if text::starts_with(p.name.as_str(), prefix.as_str()) && has_text(&p.keywords, keyword) {
            let ghost before = summaries(kept@);
            let summary = NpmProviderPackageSummary {
                name: text::copy(p.name.as_str()),
                version: text::copy(p.version.as_str()),
                description: text::copy_opt(&p.description),
            };
            kept.push(summary);
            assert(summaries(kept@) =~= before.push(summary@));
        }
        i = i + 1;
    }
    assert(found@.take(n as int) =~= found@);
    kept
}

/// A name that begins with a scope is kept as it is, white space round it aside; any other is
/// looked for in the scope of the project.
pub proof fn law_canonical_name_is_scoped(name: Seq<char>)
    ensures
        canonical(name).len() > 0 && canonical(name)[0] == '@',
        text::ends(canonical(name), text::trimmed(name)),
        text::trimmed(name).len() > 0 && text::trimmed(name)[0] == '@' ==> canonical(name)
            == text::trimmed(name),
        !(text::trimmed(name).len() > 0 && text::trimmed(name)[0] == '@') ==> canonical(name)
            == "@dicta-asr/"@ + text::trimmed(name),
{
    reveal_strlit("@dicta-asr/");
    let t = text::trimmed(name);
    let c = canonical(name);
    assert(c.subrange(c.len() - t.len(), c.len() as int) =~= t);
}

/// In an address the one slash of a scoped name is written so that the name stays one part.
pub proof fn law_url_name_is_one_part(scope: Seq<char>, package: Seq<char>)
    requires
        !scope.contains('/'),
        !package.contains('/'),
    ensures
        url_name(scope + seq!['/'] + package) == scope + "%2F"@ + package,
        url_name(package) == package,
        !url_name(scope + seq!['/'] + package).contains('/'),
{
    let s = scope + seq!['/'] + package;
    text::law_cut_is_at_the_first(s, '/');
    text::law_cut_is_at_the_first(package, '/');
    assert(s[scope.len() as int] == '/');
    assert(s.contains('/'));
    let (a, b) = text::cut(s, '/')->0;
    lemma_same_cut(scope, package, a, b);
    reveal_strlit("%2F");
    let u = scope + "%2F"@ + package;
    if u.contains('/') {
        let i = choose|i: int| 0 <= i < u.len() && u[i] == '/';
        if i < scope.len() {
            assert(scope[i] == '/');
        } else if i >= scope.len() + 3 {
            assert(package[i - scope.len() - 3] == '/');
        }
    }
}

proof fn lemma_same_cut(a: Seq<char>, b: Seq<char>, c: Seq<char>, d: Seq<char>)
    requires
        a + seq!['/'] + b == c + seq!['/'] + d,
        !a.contains('/'),
        !c.contains('/'),
    ensures
        a == c,
        b == d,
{
    let s = a + seq!['/'] + b;
    let t = c + seq!['/'] + d;
    assert(s[a.len() as int] == '/');
    assert(t[c.len() as int] == '/');
    if a.len() < c.len() {
        assert(t[a.len() as int] == c[a.len() as int]);
    }
    if c.len() < a.len() {
        assert(s[c.len() as int] == a[c.len() as int]);
    }
    assert(a =~= s.subrange(0, a.len() as int));
    assert(c =~= t.subrange(0, c.len() as int));
    assert(b =~= s.subrange(a.len() as int + 1, s.len() as int));
    assert(d =~= t.subrange(c.len() as int + 1, t.len() as int));
}

/// A list that names values allows those alone; one that only rules values out allows all
/// the others; an empty one allows any.
pub proof fn law_lists_of_platforms(values: Seq<Seq<char>>, current: Seq<char>)
    requires
        current.len() > 0,
        current[0] != '!',
    ensures
        values.len() == 0 ==> allowed(values, current),
        values.contains(current) && !values.contains("!"@ + current) ==> allowed(values, current),
        !values.contains(current) && (exists|i: int|
            0 <= i < values.len() && (#[trigger] values[i]).len() > 0 && values[i][0] != '!')
            ==> !allowed(values, current),
        (forall|i: int|
            0 <= i < values.len() ==> (#[trigger] values[i]).len() > 0 && values[i][0] == '!') ==> (
        allowed(values, current) <==> !values.contains("!"@ + current)),
{
    if !values.contains(current) && (exists|i: int|
        0 <= i < values.len() && (#[trigger] values[i]).len() > 0 && values[i][0] != '!') {
        let i = choose|i: int|
            0 <= i < values.len() && (#[trigger] values[i]).len() > 0 && values[i][0] != '!';
        assert(!ruled_out(values[i]));
    }
}

/// A version that is there is taken by its number, with or without a mark before it.
pub proof fn law_version_by_its_number(p: PackageView, requested: Seq<char>, version: Seq<char>)
    requires
        table::under_name(p.versions, version) is Some,
        version.len() > 0,
        version[0] != 'v' && version[0] != '=' && version[0] != '^' && version[0] != '~',
        version != "*"@,
        ({
            let asked = text::trimmed(requested);
            asked == version || asked == seq!['^'] + version || asked == seq!['~'] + version
                || asked == seq!['v'] + version || asked == seq!['='] + version
        }),
    ensures
        resolved_version(p, requested) == Ok::<Seq<char>, Seq<char>>(version),
{
    reveal_strlit("*");
    assert("*"@ =~= seq!['*']);
    let asked = text::trimmed(requested);
    if asked != version {
        assert(asked.subrange(1, asked.len() as int) =~= version);
        assert(asked.len() >= 2);
    }
}

/// A tag gives the version that it marks where no version has that name, and a star the
/// latest one; what is neither a version nor a tag fails.
pub proof fn law_version_by_its_tag(p: PackageView, requested: Seq<char>)
    ensures
        ({
            let asked = text::trimmed(requested);
            &&& asked == "*"@ ==> match table::under_name(p.dist_tags, "latest"@) {
                Some(v) => resolved_version(p, requested) == Ok::<Seq<char>, Seq<char>>(v),
                None => resolved_version(p, requested) is Err,
            }
            &&& asked != "*"@ && table::under_name(p.versions, plain_version(asked)) is None
                ==> match table::under_name(p.dist_tags, asked) {
                Some(v) => resolved_version(p, requested) == Ok::<Seq<char>, Seq<char>>(v),
                None => resolved_version(p, requested) is Err,
            }
        }),
        resolved_version(p, requested) matches Ok(v) ==> table::under_name(p.versions, v) is Some
            || exists|i: int| 0 <= i < p.dist_tags.len() && (#[trigger] p.dist_tags[i]).1 == v,
{
    let asked = text::trimmed(requested);
    let tag = if asked == "*"@ {
        "latest"@
    } else {
        asked
    };
    lemma_tag_marks(p.dist_tags, tag);
}

proof fn lemma_tag_marks(tags: Seq<(Seq<char>, Seq<char>)>, tag: Seq<char>)
    ensures
        table::under_name(tags, tag) matches Some(v) ==> exists|i: int|
            0 <= i < tags.len() && (#[trigger] tags[i]).1 == v,
    decreases tags.len(),
{
    if tags.len() > 0 {
        if tags[0].0 == tag {
            assert(tags[0].1 == table::under_name(tags, tag)->0);
        } else {
            let rest = tags.subrange(1, tags.len() as int);
            lemma_tag_marks(rest, tag);
            if let Some(v) = table::under_name(rest, tag) {
                let i = choose|i: int| 0 <= i < rest.len() && (#[trigger] rest[i]).1 == v;
                assert(tags[i + 1].1 == v);
            }
        }
    }
}

/// A package whose name goes on from that of a provider with a dash may hold it for one
/// platform, in whatever scope it stands.
pub proof fn law_platform_package_goes_on_with_a_dash(
    root: Seq<char>,
    scope: Seq<char>,
    rest: Seq<char>,
)
    requires
        !text::after_last(root, '/').contains('/'),
        !rest.contains('/'),
    ensures
        platform_package(root, root + "-"@ + rest),
        platform_package(root, scope + "/"@ + text::after_last(root, '/') + "-"@ + rest),
        !platform_package(root, root),
{
    reveal_strlit("-");
    reveal_strlit("/");
    let a = root + "-"@ + rest;
    assert(a.subrange(0, (root + "-"@).len() as int) =~= root + "-"@);
    let tail = text::after_last(root, '/') + "-"@ + rest;
    let b = scope + "/"@ + text::after_last(root, '/') + "-"@ + rest;
    assert(b =~= scope + seq!['/'] + tail);
    assert(b[scope.len() as int] == '/');
    assert(b.contains('/'));
    if tail.contains('/') {
        let i = choose|i: int| 0 <= i < tail.len() && tail[i] == '/';
        let front = text::after_last(root, '/');
        if i < front.len() {
            assert(front[i] == '/');
        } else if i > front.len() {
            assert(rest[i - front.len() - 1] == '/');
        } else {
            assert("-"@[0] == '-');
        }
    }
    lemma_tail(scope, tail);
    let front = text::after_last(root, '/') + "-"@;
    assert(tail.subrange(0, front.len() as int) =~= front);
}

proof fn lemma_tail(scope: Seq<char>, tail: Seq<char>)
    requires
        !tail.contains('/'),
    ensures
        text::after_last(scope + seq!['/'] + tail, '/') == tail,
    decreases tail.len(),
{
    let s = scope + seq!['/'] + tail;
    if tail.len() > 0 {
        let front = tail.drop_last();
        if front.contains('/') {
            let i = choose|i: int| 0 <= i < front.len() && front[i] == '/';
            assert(tail[i] == '/');
        }
        lemma_tail(scope, front);
        assert(tail.contains(tail.last()));
        assert(s.drop_last() =~= scope + seq!['/'] + front);
        assert(front.push(tail.last()) =~= tail);
    } else {
        assert(s.last() == '/');
    }
}

/// A file is sound just where its announced digest is one that can be read and is its own.
pub proof fn law_sound_file_has_its_digest(data: Seq<u8>, encoded: Seq<char>, integrity: Seq<char>)
    ensures
        integrity_fault(data, "sha512-"@ + encoded) is None <==> base64_bytes(encoded) == Some(
            sha512_digest(data),
        ),
        !text::starts(integrity, "sha512-"@) ==> integrity_fault(data, integrity) is Some,
{
    let all = "sha512-"@ + encoded;
    let n = "sha512-"@.len() as int;
    assert(all.subrange(0, n) =~= "sha512-"@);
    assert(all.subrange(n, all.len() as int) =~= encoded);
}

/// A search offers just the packages of the scope that have the keyword, in their order: one
/// more package found is one more offered, or none where it is none of these.
pub proof fn law_search_offers_provider_packages(
    found: Seq<NpmSearchPackage>,
    scope: Seq<char>,
    keyword: Seq<char>,
    next: NpmSearchPackage,
)
    ensures
        provider_packages(found.push(next), scope, keyword) == if text::starts(
            next.name@,
            "@"@ + bare_scope(scope) + "/"@,
        ) && text::texts(next.keywords@).contains(keyword) {
            provider_packages(found, scope, keyword).push(
                SummaryView {
                    name: next.name@,
                    version: next.version@,
                    description: text::text_of(next.description),
                },
            )
        } else {
            provider_packages(found, scope, keyword)
        },
        provider_packages(Seq::empty(), scope, keyword).len() == 0,
{
    assert(found.push(next).drop_last() =~= found);
}

/// A package supports a machine just where it allows both its system and its processor.
pub proof fn law_both_system_and_processor_count(v: VersionView, os: Seq<char>, cpu: Seq<char>)
    ensures
        supports(v, os, cpu) ==> allowed(v.os, os) && allowed(v.cpu, cpu),
        allowed(v.os, os) && allowed(v.cpu, cpu) ==> supports(v, os, cpu),
        v.os.len() == 0 && v.cpu.len() == 0 ==> supports(v, os, cpu),
        v.os.contains("!"@ + os) || v.cpu.contains("!"@ + cpu) ==> !supports(v, os, cpu),
{
}

proof fn lemma_trailing(base: Seq<char>)
    requires
        base.len() == 0 || base.last() != '/',
    ensures
        text::trimmed_end_of(base, '/') == base,
        text::trimmed_end_of(base.push('/'), '/') == base,
{
    reveal_with_fuel(text::trimmed_end_of, 2);
    assert(base.push('/').drop_last() =~= base);
}

/// A slash behind the address of a registry makes no difference.
pub proof fn law_registry_without_its_slash(registry: Seq<char>)
    requires
        text::inked(registry),
        registry.last() != '/',
    ensures
        registry_base(registry) == registry,
        registry_base(registry.push('/')) == registry,
{
    text::lemma_inked_is_trimmed(registry);
    text::lemma_inked_is_trimmed(registry.push('/'));
    lemma_trailing(registry);
}

} // verus!
