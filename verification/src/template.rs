//! Template identification: parsing a raw input string into a typed provider
//! variant, extracting the template's name, and deriving the locator used to
//! fetch its body.

use vstd::prelude::*;
use crate::strutil::{
    count_char, count_char_exec, has_prefix, has_suffix, lower_seq, repeat_char, starts_with_str,
    to_lowercase_ascii, trim_spec, trim_str,
};

verus! {

/// The prefixes used to identify the template kind.
pub struct TemplatePrefixes {
    pub url: &'static str,
    pub file: &'static str,
    pub github_repo: &'static str,
    pub github_community: &'static str,
    pub github_global: &'static str,
    pub github: &'static str,
    pub toptal: &'static str,
}

/// The prefix table, with each field pinned to its literal.
pub fn prefixes() -> (r: TemplatePrefixes)
    ensures
        r.url@ == "url:"@,
        r.file@ == "file:"@,
        r.github_repo@ == "repo:"@,
        r.github_community@ == "ghc:"@,
        r.github_global@ == "ghg:"@,
        r.github@ == "gh:"@,
        r.toptal@ == "tt:"@,
{
    TemplatePrefixes {
        url: "url:",
        file: "file:",
        github_repo: "repo:",
        github_community: "ghc:",
        github_global: "ghg:",
        github: "gh:",
        toptal: "tt:",
    }
}

/// The provider a template identifier resolves to.
#[derive(Clone, Copy, Debug, PartialEq, Eq, Structural)]
pub enum ProviderKind {
    Url,
    File,
    GitHubRepo,
    GitHubGlobal,
    GitHubCommunity,
    GitHub,
    TopTal,
}

/// Errors surfaced by template resolution and locator derivation.
#[derive(Clone, Copy, Debug, PartialEq, Eq, Structural)]
pub enum TemplateError {
    /// A `url:`-resolved input that does not parse as an absolute URL.
    InvalidUrl,
    /// A `file:`-resolved input whose path does not exist on disk.
    InvalidFilePath,
    /// Template arguments were passed but no command consumes them.
    UnknownCommand,
    /// Template arguments were passed to the interactive command.
    SearchCommandArgs,
}

impl TemplateError {
    /// A short human-readable description of the error.
    pub fn message(&self) -> (r: String)
        ensures
            r@ == error_message_spec(*self),
    {
        match self {
            TemplateError::InvalidUrl => "invalid URL for ignore template".to_owned(),
            TemplateError::InvalidFilePath => "invalid or non-existent ignore template file path"
                .to_owned(),
            TemplateError::UnknownCommand => "cannot provide template arguments to an unknown command"
                .to_owned(),
            TemplateError::SearchCommandArgs => "cannot provide template arguments to 'search' command"
                .to_owned(),
        }
    }
}

/// The text [`TemplateError::message`] returns for each variant.
pub open spec fn error_message_spec(e: TemplateError) -> Seq<char> {
    match e {
        TemplateError::InvalidUrl => "invalid URL for ignore template"@,
        TemplateError::InvalidFilePath => "invalid or non-existent ignore template file path"@,
        TemplateError::UnknownCommand => "cannot provide template arguments to an unknown command"@,
        TemplateError::SearchCommandArgs => "cannot provide template arguments to 'search' command"@,
    }
}

// ---------------------------------------------------------------------------
// Trusted bindings to the outside world
// ---------------------------------------------------------------------------

/// The serialization `url::Url::parse` would produce for this input, or
/// nothing when the input is not a well-formed absolute URL. The parse
/// depends on the input characters alone.
pub uninterp spec fn url_normal_form(s: Seq<char>) -> Option<Seq<char>>;

/// Relies on `url::Url::parse` for URL validation and on the crate's
/// serialization (`From<Url> for String`, the same text its `Display`
/// prints) for the normal form.
#[verifier::external_body]
fn parse_absolute_url(s: &str) -> (r: Option<String>)
    ensures
        r is Some <==> url_normal_form(s@) is Some,
        r is Some ==> r->0@ == url_normal_form(s@)->0,
{
    match url::Url::parse(s) {
        Ok(u) => Some(String::from(u)),
        Err(_) => None,
    }
}

/// Relies on std's `Path::exists`: whether the path points at an existing
/// filesystem entity. The answer depends on the machine's disk, so nothing
/// further is promised.
#[verifier::external_body]
fn fs_path_exists(path: &str) -> bool {
    std::path::Path::new(path).exists()
}

// ---------------------------------------------------------------------------
// Resolution
// ---------------------------------------------------------------------------

/// The ordered resolution rule list: an explicit prefix always wins; absent
/// one, the string is tried as an absolute URL (`url_ok`), as an existing
/// local path (`path_present`), as an `owner/repo/branch/path` form, and as a
/// case-insensitive `community/` or `global/` name, in that order; anything
/// left is a root GitHub collection name.
pub open spec fn resolve_kind(s: Seq<char>, url_ok: bool, path_present: bool) -> ProviderKind {
    if has_prefix(s, "gh:"@) {
        ProviderKind::GitHub
    } else if has_prefix(s, "ghg:"@) {
        ProviderKind::GitHubGlobal
    } else if has_prefix(s, "ghc:"@) {
        ProviderKind::GitHubCommunity
    } else if has_prefix(s, "tt:"@) {
        ProviderKind::TopTal
    } else if has_prefix(s, "repo:"@) {
        ProviderKind::GitHubRepo
    } else if has_prefix(s, "url:"@) {
        ProviderKind::Url
    } else if has_prefix(s, "file:"@) {
        ProviderKind::File
    } else if url_ok {
        ProviderKind::Url
    } else if path_present {
        ProviderKind::File
    } else if count_char(s, '/') >= 3 {
        ProviderKind::GitHubRepo
    } else if has_prefix(lower_seq(s), "community/"@) {
        ProviderKind::GitHubCommunity
    } else if has_prefix(lower_seq(s), "global/"@) {
        ProviderKind::GitHubGlobal
    } else {
        ProviderKind::GitHub
    }
}

/// `s` carries one of the seven explicit provider prefixes.
pub open spec fn has_explicit_prefix(s: Seq<char>) -> bool {
    has_prefix(s, "gh:"@) || has_prefix(s, "ghg:"@) || has_prefix(s, "ghc:"@) || has_prefix(
        s,
        "tt:"@,
    ) || has_prefix(s, "repo:"@) || has_prefix(s, "url:"@) || has_prefix(s, "file:"@)
}

/// An explicit prefix decides the provider on its own: for a prefixed input
/// the heuristic inputs (URL well-formedness, path existence) never change
/// the resolved kind.
pub proof fn lemma_prefix_always_wins(s: Seq<char>, u1: bool, p1: bool, u2: bool, p2: bool)
    requires
        has_explicit_prefix(s),
    ensures
        resolve_kind(s, u1, p1) == resolve_kind(s, u2, p2),
{
}

// ---------------------------------------------------------------------------
// Stripping helpers used by name extraction
// ---------------------------------------------------------------------------

/// `s` without `p` when `p` starts it, else `s` unchanged.
pub open spec fn strip_prefix_if(s: Seq<char>, p: Seq<char>) -> Seq<char> {
    if has_prefix(s, p) {
        s.skip(p.len() as int)
    } else {
        s
    }
}

/// `s` without `p` when `p` ends it, else `s` unchanged.
pub open spec fn strip_suffix_if(s: Seq<char>, p: Seq<char>) -> Seq<char> {
    if has_suffix(s, p) {
        s.take(s.len() - p.len())
    } else {
        s
    }
}

/// `s` with the first listed prefix that matches removed.
pub open spec fn strip_first_prefix(s: Seq<char>, ps: Seq<Seq<char>>) -> Seq<char>
    decreases ps.len(),
{
    if ps.len() == 0 {
        s
    } else if has_prefix(s, ps[0]) {
        s.skip(ps[0].len() as int)
    } else {
        strip_first_prefix(s, ps.drop_first())
    }
}

/// `s` with the first listed suffix that matches removed.
pub open spec fn strip_first_suffix(s: Seq<char>, ps: Seq<Seq<char>>) -> Seq<char>
    decreases ps.len(),
{
    if ps.len() == 0 {
        s
    } else if has_suffix(s, ps[0]) {
        s.take(s.len() - ps[0].len())
    } else {
        strip_first_suffix(s, ps.drop_first())
    }
}

/// Unfolds [`strip_first_prefix`] over a three-element prefix list.
proof fn lemma_strip_first_prefix3(s: Seq<char>, a: Seq<char>, b: Seq<char>, c: Seq<char>)
    ensures
        has_prefix(s, a) ==> strip_first_prefix(s, seq![a, b, c]) == s.skip(a.len() as int),
        !has_prefix(s, a) && has_prefix(s, b) ==> strip_first_prefix(s, seq![a, b, c]) == s.skip(
            b.len() as int,
        ),
        !has_prefix(s, a) && !has_prefix(s, b) && has_prefix(s, c) ==> strip_first_prefix(
            s,
            seq![a, b, c],
        ) == s.skip(c.len() as int),
        !has_prefix(s, a) && !has_prefix(s, b) && !has_prefix(s, c) ==> strip_first_prefix(
            s,
            seq![a, b, c],
        ) == s,
{
    let ps = seq![a, b, c];
    assert(ps.drop_first() =~= seq![b, c]);
    assert(seq![b, c].drop_first() =~= seq![c]);
    assert(seq![c].drop_first() =~= Seq::<Seq<char>>::empty());
    if !has_prefix(s, a) {
        assert(strip_first_prefix(s, ps) == strip_first_prefix(s, seq![b, c]));
        if !has_prefix(s, b) {
            assert(strip_first_prefix(s, seq![b, c]) == strip_first_prefix(s, seq![c]));
            if !has_prefix(s, c) {
                assert(strip_first_prefix(s, seq![c]) == strip_first_prefix(
                    s,
                    Seq::<Seq<char>>::empty(),
                ));
            }
        }
    }
}

/// Unfolds [`strip_first_suffix`] over a three-element suffix list.
proof fn lemma_strip_first_suffix3(s: Seq<char>, a: Seq<char>, b: Seq<char>, c: Seq<char>)
    ensures
        has_suffix(s, a) ==> strip_first_suffix(s, seq![a, b, c]) == s.take(s.len() - a.len()),
        !has_suffix(s, a) && has_suffix(s, b) ==> strip_first_suffix(s, seq![a, b, c]) == s.take(
            s.len() - b.len(),
        ),
        !has_suffix(s, a) && !has_suffix(s, b) && has_suffix(s, c) ==> strip_first_suffix(
            s,
            seq![a, b, c],
        ) == s.take(s.len() - c.len()),
        !has_suffix(s, a) && !has_suffix(s, b) && !has_suffix(s, c) ==> strip_first_suffix(
            s,
            seq![a, b, c],
        ) == s,
{
    let ps = seq![a, b, c];
    assert(ps.drop_first() =~= seq![b, c]);
    assert(seq![b, c].drop_first() =~= seq![c]);
    assert(seq![c].drop_first() =~= Seq::<Seq<char>>::empty());
    if !has_suffix(s, a) {
        assert(strip_first_suffix(s, ps) == strip_first_suffix(s, seq![b, c]));
        if !has_suffix(s, b) {
            assert(strip_first_suffix(s, seq![b, c]) == strip_first_suffix(s, seq![c]));
            if !has_suffix(s, c) {
                assert(strip_first_suffix(s, seq![c]) == strip_first_suffix(
                    s,
                    Seq::<Seq<char>>::empty(),
                ));
            }
        }
    }
}

/// Executable counterpart of [`strip_prefix_if`].
fn strip_prefix_owned(s: &str, p: &str) -> (r: String)
    ensures
        r@ == strip_prefix_if(s@, p@),
{
    if starts_with_str(s, p) {
        let np = p.unicode_len();
        let n = s.unicode_len();
        let t = substr_copy_local(s, np, n);
        proof {
            assert(t@ =~= s@.skip(p@.len() as int));
        }
        t
    } else {
        s.to_owned()
    }
}

/// Executable counterpart of [`strip_suffix_if`].
fn strip_suffix_owned(s: &str, p: &str) -> (r: String)
    ensures
        r@ == strip_suffix_if(s@, p@),
{
    if ends_with_str_local(s, p) {
        let np = p.unicode_len();
        let n = s.unicode_len();
        let t = substr_copy_local(s, 0, n - np);
        proof {
            assert(t@ =~= s@.take(s@.len() - p@.len()));
        }
        t
    } else {
        s.to_owned()
    }
}

/// Character-range copy, shared by the stripping helpers.
fn substr_copy_local(s: &str, from: usize, to: usize) -> (r: String)
    requires
        from <= to <= s@.len(),
    ensures
        r@ == s@.subrange(from as int, to as int),
{
    crate::strutil::substr_copy(s, from, to)
}

/// Suffix test, shared by the stripping helpers.
fn ends_with_str_local(s: &str, p: &str) -> (r: bool)
    ensures
        r == has_suffix(s@, p@),
{
    crate::strutil::ends_with_str(s, p)
}

// ---------------------------------------------------------------------------
// The template value
// ---------------------------------------------------------------------------

/// The available predefined ignore template types; each variant carries the
/// raw input string it was resolved from.
#[derive(Debug)]
pub enum TemplateValue {
    Url(String),
    File(String),
    GitHubRepo(String),
    GitHubGlobal(String),
    GitHubCommunity(String),
    GitHub(String),
    TopTal(String),
}

impl View for TemplateValue {
    type V = (ProviderKind, Seq<char>);

    open spec fn view(&self) -> (ProviderKind, Seq<char>) {
        match self {
            TemplateValue::Url(s) => (ProviderKind::Url, s@),
            TemplateValue::File(s) => (ProviderKind::File, s@),
            TemplateValue::GitHubRepo(s) => (ProviderKind::GitHubRepo, s@),
            TemplateValue::GitHubGlobal(s) => (ProviderKind::GitHubGlobal, s@),
            TemplateValue::GitHubCommunity(s) => (ProviderKind::GitHubCommunity, s@),
            TemplateValue::GitHub(s) => (ProviderKind::GitHub, s@),
            TemplateValue::TopTal(s) => (ProviderKind::TopTal, s@),
        }
    }
}

impl Clone for TemplateValue {
    /// Clones are equal to the original.
    fn clone(&self) -> (r: Self)
        ensures
            r == *self,
    {
        match self {
            TemplateValue::Url(s) => TemplateValue::Url(s.clone()),
            TemplateValue::File(s) => TemplateValue::File(s.clone()),
            TemplateValue::GitHubRepo(s) => TemplateValue::GitHubRepo(s.clone()),
            TemplateValue::GitHubGlobal(s) => TemplateValue::GitHubGlobal(s.clone()),
            TemplateValue::GitHubCommunity(s) => TemplateValue::GitHubCommunity(s.clone()),
            TemplateValue::GitHub(s) => TemplateValue::GitHub(s.clone()),
            TemplateValue::TopTal(s) => TemplateValue::TopTal(s.clone()),
        }
    }
}

impl PartialEq for TemplateValue {
    /// Structural equality over the view: same provider, same raw input.
    fn eq(&self, other: &Self) -> (r: bool) {
        match (self, other) {
            (TemplateValue::Url(a), TemplateValue::Url(b)) => crate::strutil::str_eq(
                a.as_str(),
                b.as_str(),
            ),
            (TemplateValue::File(a), TemplateValue::File(b)) => crate::strutil::str_eq(
                a.as_str(),
                b.as_str(),
            ),
            (TemplateValue::GitHubRepo(a), TemplateValue::GitHubRepo(b)) => crate::strutil::str_eq(
                a.as_str(),
                b.as_str(),
            ),
            (
                TemplateValue::GitHubGlobal(a),
                TemplateValue::GitHubGlobal(b),
            ) => crate::strutil::str_eq(a.as_str(), b.as_str()),
            (
                TemplateValue::GitHubCommunity(a),
                TemplateValue::GitHubCommunity(b),
            ) => crate::strutil::str_eq(a.as_str(), b.as_str()),
            (TemplateValue::GitHub(a), TemplateValue::GitHub(b)) => crate::strutil::str_eq(
                a.as_str(),
                b.as_str(),
            ),
            (TemplateValue::TopTal(a), TemplateValue::TopTal(b)) => crate::strutil::str_eq(
                a.as_str(),
                b.as_str(),
            ),
            _ => false,
        }
    }
}

impl Eq for TemplateValue {

}

impl vstd::std_specs::cmp::PartialEqSpecImpl for TemplateValue {
    open spec fn obeys_eq_spec() -> bool {
        true
    }

    open spec fn eq_spec(&self, other: &TemplateValue) -> bool {
        self@ == other@
    }
}

/// The explicit prefix belonging to each provider.
pub open spec fn prefix_of_kind(k: ProviderKind) -> Seq<char> {
    match k {
        ProviderKind::Url => "url:"@,
        ProviderKind::File => "file:"@,
        ProviderKind::GitHubRepo => "repo:"@,
        ProviderKind::GitHubCommunity => "ghc:"@,
        ProviderKind::GitHubGlobal => "ghg:"@,
        ProviderKind::GitHub => "gh:"@,
        ProviderKind::TopTal => "tt:"@,
    }
}

/// The template's name: the raw input less its explicit prefix, less the
/// known suffixes of collection providers (`.gitignore`, and for TopTal also
/// `.patch` and `.stack`), and for the global/community collections less a
/// spelled-out directory prefix.
pub open spec fn name_spec(v: (ProviderKind, Seq<char>)) -> Seq<char> {
    let raw = v.1;
    match v.0 {
        ProviderKind::Url => strip_prefix_if(raw, "url:"@),
        ProviderKind::File => strip_prefix_if(raw, "file:"@),
        ProviderKind::GitHubRepo => strip_prefix_if(raw, "repo:"@),
        ProviderKind::GitHubGlobal => strip_suffix_if(
            strip_first_prefix(raw, seq!["ghg:"@, "global/"@, "Global/"@]),
            ".gitignore"@,
        ),
        ProviderKind::GitHubCommunity => strip_suffix_if(
            strip_first_prefix(raw, seq!["ghc:"@, "community/"@, "Community/"@]),
            ".gitignore"@,
        ),
        ProviderKind::GitHub => strip_suffix_if(strip_prefix_if(raw, "gh:"@), ".gitignore"@),
        ProviderKind::TopTal => strip_first_suffix(
            strip_prefix_if(raw, "tt:"@),
            seq![".gitignore"@, ".patch"@, ".stack"@],
        ),
    }
}

impl TemplateValue {
    /// Create a new template value from a string, by the ordered resolution
    /// rules; resolution always succeeds via the default fallback.
    pub fn from_str(s: &str) -> (r: Result<Self, TemplateError>)
        ensures
            r is Ok,
            (r->Ok_0)@.1 == s@,
            exists|pe: bool|
                (r->Ok_0)@.0 == #[trigger] resolve_kind(s@, url_normal_form(s@) is Some, pe),
    {
        let ghost uok = url_normal_form(s@) is Some;
        let p = prefixes();
        if starts_with_str(s, p.github) {
            let v = TemplateValue::GitHub(s.to_owned());
            proof {
                assert(v@.0 == resolve_kind(s@, uok, false));
            }
            return Ok(v);
        }
        if starts_with_str(s, p.github_global) {
            let v = TemplateValue::GitHubGlobal(s.to_owned());
            proof {
                assert(v@.0 == resolve_kind(s@, uok, false));
            }
            return Ok(v);
        }
        if starts_with_str(s, p.github_community) {
            let v = TemplateValue::GitHubCommunity(s.to_owned());
            proof {
                assert(v@.0 == resolve_kind(s@, uok, false));
            }
            return Ok(v);
        }
        if starts_with_str(s, p.toptal) {
            let v = TemplateValue::TopTal(s.to_owned());
            proof {
                assert(v@.0 == resolve_kind(s@, uok, false));
            }
            return Ok(v);
        }
        if starts_with_str(s, p.github_repo) {
            let v = TemplateValue::GitHubRepo(s.to_owned());
            proof {
                assert(v@.0 == resolve_kind(s@, uok, false));
            }
            return Ok(v);
        }
        if starts_with_str(s, p.url) {
            let v = TemplateValue::Url(s.to_owned());
            proof {
                assert(v@.0 == resolve_kind(s@, uok, false));
            }
            return Ok(v);
        }
        if starts_with_str(s, p.file) {
            let v = TemplateValue::File(s.to_owned());
            proof {
                assert(v@.0 == resolve_kind(s@, uok, false));
            }
            return Ok(v);
        }
        if parse_absolute_url(s).is_some() {
            let v = TemplateValue::Url(s.to_owned());
            proof {
                assert(v@.0 == resolve_kind(s@, uok, false));
            }
            return Ok(v);
        }
        let on_disk = fs_path_exists(s);
        if on_disk {
            let v = TemplateValue::File(s.to_owned());
            proof {
                assert(v@.0 == resolve_kind(s@, uok, true));
            }
            return Ok(v);
        }
        if count_char_exec(s, '/') >= 3 {
            let v = TemplateValue::GitHubRepo(s.to_owned());
            proof {
                assert(v@.0 == resolve_kind(s@, uok, false));
            }
            return Ok(v);
        }
        let lower = to_lowercase_ascii(s);
        if starts_with_str(lower.as_str(), "community/") {
            let v = TemplateValue::GitHubCommunity(s.to_owned());
            proof {
                assert(v@.0 == resolve_kind(s@, uok, false));
            }
            return Ok(v);
        }
        if starts_with_str(lower.as_str(), "global/") {
            let v = TemplateValue::GitHubGlobal(s.to_owned());
            proof {
                assert(v@.0 == resolve_kind(s@, uok, false));
            }
            return Ok(v);
        }
        let v = TemplateValue::GitHub(s.to_owned());
        proof {
            assert(v@.0 == resolve_kind(s@, uok, false));
        }
        Ok(v)
    }

    /// Return the template type prefix.
    pub fn prefix(&self) -> (r: &str)
        ensures
            r@ == prefix_of_kind(self@.0),
    {
        match self {
            TemplateValue::Url(_) => "url:",
            TemplateValue::File(_) => "file:",
            TemplateValue::GitHubRepo(_) => "repo:",
            TemplateValue::GitHubCommunity(_) => "ghc:",
            TemplateValue::GitHubGlobal(_) => "ghg:",
            TemplateValue::GitHub(_) => "gh:",
            TemplateValue::TopTal(_) => "tt:",
        }
    }

    /// The name of the template: a URL, a file path, or the template's name
    /// inside its collection.
    pub fn name(&self) -> (r: Result<String, TemplateError>)
        ensures
            r is Ok,
            (r->Ok_0)@ == name_spec(self@),
    {
        match self {
            TemplateValue::Url(raw) => Ok(strip_prefix_owned(raw.as_str(), "url:")),
            TemplateValue::File(raw) => Ok(strip_prefix_owned(raw.as_str(), "file:")),
            TemplateValue::GitHubRepo(raw) => Ok(strip_prefix_owned(raw.as_str(), "repo:")),
            TemplateValue::GitHubGlobal(raw) => {
                let ghost ps = seq!["ghg:"@, "global/"@, "Global/"@];
                proof {
                    lemma_strip_first_prefix3(raw@, "ghg:"@, "global/"@, "Global/"@);
                }
                let stripped: String = if starts_with_str(raw.as_str(), "ghg:") {
                    strip_prefix_owned(raw.as_str(), "ghg:")
                } else if starts_with_str(raw.as_str(), "global/") {
                    strip_prefix_owned(raw.as_str(), "global/")
                } else if starts_with_str(raw.as_str(), "Global/") {
                    strip_prefix_owned(raw.as_str(), "Global/")
                } else {
                    raw.as_str().to_owned()
                };
                proof {
                    assert(stripped@ == strip_first_prefix(raw@, ps));
                }
                Ok(strip_suffix_owned(stripped.as_str(), ".gitignore"))
            },
            TemplateValue::GitHubCommunity(raw) => {
                let ghost ps = seq!["ghc:"@, "community/"@, "Community/"@];
                proof {
                    lemma_strip_first_prefix3(raw@, "ghc:"@, "community/"@, "Community/"@);
                }
                let stripped: String = if starts_with_str(raw.as_str(), "ghc:") {
                    strip_prefix_owned(raw.as_str(), "ghc:")
                } else if starts_with_str(raw.as_str(), "community/") {
                    strip_prefix_owned(raw.as_str(), "community/")
                } else if starts_with_str(raw.as_str(), "Community/") {
                    strip_prefix_owned(raw.as_str(), "Community/")
                } else {
                    raw.as_str().to_owned()
                };
                proof {
                    assert(stripped@ == strip_first_prefix(raw@, ps));
                }
                Ok(strip_suffix_owned(stripped.as_str(), ".gitignore"))
            },
            TemplateValue::GitHub(raw) => {
                let stripped = strip_prefix_owned(raw.as_str(), "gh:");
                Ok(strip_suffix_owned(stripped.as_str(), ".gitignore"))
            },
            TemplateValue::TopTal(raw) => {
                let ghost ps = seq![".gitignore"@, ".patch"@, ".stack"@];
                let stripped = strip_prefix_owned(raw.as_str(), "tt:");
                proof {
                    lemma_strip_first_suffix3(stripped@, ".gitignore"@, ".patch"@, ".stack"@);
                }
                let r: String = if ends_with_str_local(stripped.as_str(), ".gitignore") {
                    strip_suffix_owned(stripped.as_str(), ".gitignore")
                } else if ends_with_str_local(stripped.as_str(), ".patch") {
                    strip_suffix_owned(stripped.as_str(), ".patch")
                } else if ends_with_str_local(stripped.as_str(), ".stack") {
                    strip_suffix_owned(stripped.as_str(), ".stack")
                } else {
                    stripped.as_str().to_owned()
                };
                proof {
                    assert(r@ == strip_first_suffix(stripped@, ps));
                }
                Ok(r)
            },
        }
    }
}

// ---------------------------------------------------------------------------
// Titles and locators
// ---------------------------------------------------------------------------

/// The display label of each provider.
pub open spec fn kind_label(k: ProviderKind) -> Seq<char> {
    match k {
        ProviderKind::Url => "URL"@,
        ProviderKind::File => "File"@,
        ProviderKind::GitHubRepo => "Repo"@,
        ProviderKind::GitHubCommunity => "GitHub Community"@,
        ProviderKind::GitHubGlobal => "GitHub Global"@,
        ProviderKind::GitHub => "GitHub"@,
        ProviderKind::TopTal => "TopTal"@,
    }
}

/// The template's title: provider label, colon, name.
pub open spec fn title_spec(v: (ProviderKind, Seq<char>)) -> Seq<char> {
    kind_label(v.0) + ": "@ + name_spec(v)
}

/// Base of raw-content fetches from GitHub.
pub open spec fn github_raw_spec() -> Seq<char> {
    "https://raw.githubusercontent.com"@
}

/// Base of the TopTal template endpoint.
pub open spec fn toptal_api_spec() -> Seq<char> {
    "https://www.toptal.com/developers/gitignore/api"@
}

/// The fetch locator for the collection providers, a pure function of
/// provider kind and name. For the `Url` and `File` kinds the locator is the
/// name itself (subject to validation, stated on [`TemplateValue::url`]).
pub open spec fn locator_spec(v: (ProviderKind, Seq<char>)) -> Seq<char> {
    match v.0 {
        ProviderKind::GitHubRepo => github_raw_spec() + "/"@ + name_spec(v),
        ProviderKind::GitHubGlobal => github_raw_spec() + "/github/gitignore/main/Global/"@
            + name_spec(v) + ".gitignore"@,
        ProviderKind::GitHubCommunity => github_raw_spec() + "/github/gitignore/main/community/"@
            + name_spec(v) + ".gitignore"@,
        ProviderKind::GitHub => github_raw_spec() + "/github/gitignore/main/"@ + name_spec(v)
            + ".gitignore"@,
        ProviderKind::TopTal => toptal_api_spec() + "/"@ + name_spec(v),
        _ => name_spec(v),
    }
}

impl TemplateValue {
    /// The title of the template.
    pub fn title(&self) -> (r: Result<String, TemplateError>)
        ensures
            r is Ok,
            (r->Ok_0)@ == title_spec(self@),
    {
        let label: &str = match self {
            TemplateValue::Url(_) => "URL",
            TemplateValue::File(_) => "File",
            TemplateValue::GitHubRepo(_) => "Repo",
            TemplateValue::GitHubCommunity(_) => "GitHub Community",
            TemplateValue::GitHubGlobal(_) => "GitHub Global",
            TemplateValue::GitHub(_) => "GitHub",
            TemplateValue::TopTal(_) => "TopTal",
        };
        let name = match self.name() {
            Ok(n) => n,
            Err(e) => {
                return Err(e);
            },
        };
        let mut out = label.to_owned();
        out.append(": ");
        out.append(name.as_str());
        proof {
            assert(out@ =~= title_spec(self@));
        }
        Ok(out)
    }

    /// The locator used to fetch the template: for the collection providers
    /// the constructed provider URL; for `Url` the normalized input, invalid
    /// URLs rejected; for `File` the path, missing paths rejected.
    pub fn url(&self) -> (r: Result<String, TemplateError>)
        ensures
            self@.0 is Url ==> {
                &&& r is Ok <==> url_normal_form(name_spec(self@)) is Some
                &&& r is Ok ==> (r->Ok_0)@ == url_normal_form(name_spec(self@))->0
                &&& r is Err ==> r->Err_0 == TemplateError::InvalidUrl
            },
            self@.0 is File ==> {
                &&& r is Ok ==> (r->Ok_0)@ == name_spec(self@)
                &&& r is Err ==> r->Err_0 == TemplateError::InvalidFilePath
            },
            !(self@.0 is Url) && !(self@.0 is File) ==> r is Ok && (r->Ok_0)@ == locator_spec(
                self@,
            ),
    {
        let name = match self.name() {
            Ok(n) => n,
            Err(e) => {
                return Err(e);
            },
        };
        match self {
            TemplateValue::Url(_) => {
                match parse_absolute_url(name.as_str()) {
                    Some(u) => Ok(u),
                    None => Err(TemplateError::InvalidUrl),
                }
            },
            TemplateValue::File(_) => {
                if fs_path_exists(name.as_str()) {
                    Ok(name)
                } else {
                    Err(TemplateError::InvalidFilePath)
                }
            },
            TemplateValue::GitHubRepo(_) => {
                let mut out = "https://raw.githubusercontent.com".to_owned();
                out.append("/");
                out.append(name.as_str());
                proof {
                    assert(out@ =~= locator_spec(self@));
                }
                Ok(out)
            },
            TemplateValue::GitHubGlobal(_) => {
                let mut out = "https://raw.githubusercontent.com".to_owned();
                out.append("/github/gitignore/main/Global/");
                out.append(name.as_str());
                out.append(".gitignore");
                proof {
                    assert(out@ =~= locator_spec(self@));
                }
                Ok(out)
            },
            TemplateValue::GitHubCommunity(_) => {
                let mut out = "https://raw.githubusercontent.com".to_owned();
                out.append("/github/gitignore/main/community/");
                out.append(name.as_str());
                out.append(".gitignore");
                proof {
                    assert(out@ =~= locator_spec(self@));
                }
                Ok(out)
            },
            TemplateValue::GitHub(_) => {
                let mut out = "https://raw.githubusercontent.com".to_owned();
                out.append("/github/gitignore/main/");
                out.append(name.as_str());
                out.append(".gitignore");
                proof {
                    assert(out@ =~= locator_spec(self@));
                }
                Ok(out)
            },
            TemplateValue::TopTal(_) => {
                let mut out = "https://www.toptal.com/developers/gitignore/api".to_owned();
                out.append("/");
                out.append(name.as_str());
                proof {
                    assert(out@ =~= locator_spec(self@));
                }
                Ok(out)
            },
        }
    }
}

// ---------------------------------------------------------------------------
// The template itself
// ---------------------------------------------------------------------------

/// An ignore template created from an input string.
#[derive(Debug)]
pub struct Template {
    /// The original input string.
    pub input: String,
    /// The parsed template type / value.
    pub value: TemplateValue,
}

impl View for Template {
    type V = (Seq<char>, (ProviderKind, Seq<char>));

    open spec fn view(&self) -> (Seq<char>, (ProviderKind, Seq<char>)) {
        (self.input@, self.value@)
    }
}

impl DeepView for Template {
    type V = (Seq<char>, (ProviderKind, Seq<char>));

    open spec fn deep_view(&self) -> (Seq<char>, (ProviderKind, Seq<char>)) {
        self@
    }
}

impl Clone for Template {
    /// Clones are equal to the original.
    fn clone(&self) -> (r: Self)
        ensures
            r == *self,
    {
        Template { input: self.input.clone(), value: self.value.clone() }
    }
}

impl PartialEq for Template {
    /// Structural equality: same input, same resolved value.
    fn eq(&self, other: &Self) -> (r: bool) {
        crate::strutil::str_eq(self.input.as_str(), other.input.as_str()) && self.value
            == other.value
    }
}

impl Eq for Template {

}

impl vstd::std_specs::cmp::PartialEqSpecImpl for Template {
    open spec fn obeys_eq_spec() -> bool {
        true
    }

    open spec fn eq_spec(&self, other: &Template) -> bool {
        self@ == other@
    }
}

/// The three-line banner prefixed to a template's body: a rule line sized to
/// the title, the title framed in `###`, and the rule line again, each line
/// newline-terminated.
pub open spec fn content_title_spec(v: (ProviderKind, Seq<char>)) -> Seq<char> {
    let banner = "###  "@ + title_spec(v) + "  ###"@;
    let rule = "###"@ + Seq::new(title_spec(v).len() + 6, |i: int| '-') + "###"@;
    rule + "\n"@ + banner + "\n"@ + rule + "\n"@
}

/// A template's full content: banner, blank separator line, body, trimmed at
/// both ends.
pub open spec fn content_spec(v: (ProviderKind, Seq<char>), body: Seq<char>) -> Seq<char> {
    trim_spec(content_title_spec(v) + "\n"@ + body + "\n"@)
}

impl Template {
    /// Parses an input string into a template; resolution always succeeds.
    pub fn new(input: &str) -> (r: Result<Self, TemplateError>)
        ensures
            r is Ok,
            (r->Ok_0)@.0 == input@,
            ((r->Ok_0)@.1).1 == input@,
            exists|pe: bool|
                ((r->Ok_0)@.1).0 == #[trigger] resolve_kind(
                    input@,
                    url_normal_form(input@) is Some,
                    pe,
                ),
    {
        let value = match TemplateValue::from_str(input) {
            Ok(v) => v,
            Err(e) => {
                return Err(e);
            },
        };
        Ok(Template { input: input.to_owned(), value })
    }

    /// Wraps an already-resolved value, keeping the given input string.
    pub fn new_as(input: &str, kind: TemplateValue) -> (r: Result<Self, TemplateError>)
        ensures
            r is Ok,
            (r->Ok_0)@.0 == input@,
            (r->Ok_0)@.1 == kind@,
    {
        Ok(Template { input: input.to_owned(), value: kind })
    }

    /// The banner section of the template content.
    pub fn content_title(&self) -> (r: Result<String, TemplateError>)
        ensures
            r is Ok,
            (r->Ok_0)@ == content_title_spec(self@.1),
    {
        let title = match self.value.title() {
            Ok(t) => t,
            Err(e) => {
                return Err(e);
            },
        };
        let mut banner = "###  ".to_owned();
        banner.append(title.as_str());
        banner.append("  ###");
        proof {
            reveal_strlit("###  ");
            reveal_strlit("  ###");
            reveal_strlit("###");
            assert(banner@.len() == title_spec(self@.1).len() + 10);
        }
        let nb = banner.unicode_len();
        let dashes = repeat_char('-', nb - 4);
        let mut rule = "###".to_owned();
        rule.append(dashes.as_str());
        rule.append("###");
        let mut out = rule.clone();
        out.append("\n");
        out.append(banner.as_str());
        out.append("\n");
        out.append(rule.as_str());
        out.append("\n");
        proof {
            assert(Seq::new((nb - 4) as nat, |i: int| '-') =~= Seq::new(
                title_spec(self@.1).len() + 6,
                |i: int| '-',
            ));
            assert(out@ =~= content_title_spec(self@.1));
        }
        Ok(out)
    }

    /// The full content of the template for the given body text.
    pub fn content(&self, body: &str) -> (r: Result<String, TemplateError>)
        ensures
            r is Ok,
            (r->Ok_0)@ == content_spec(self@.1, body@),
    {
        let mut full = match self.content_title() {
            Ok(t) => t,
            Err(e) => {
                return Err(e);
            },
        };
        full.append("\n");
        full.append(body);
        full.append("\n");
        proof {
            assert(full@ =~= content_title_spec(self@.1) + "\n"@ + body@ + "\n"@);
        }
        Ok(trim_str(full.as_str()))
    }
}

} // verus!
