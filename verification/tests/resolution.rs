use gitnr::template::{Template, TemplateError, TemplateValue};

fn kind_of(input: &str) -> TemplateValue {
    Template::new(input).unwrap().value
}

#[test]
fn explicit_github_prefix_wins() {
    assert!(matches!(kind_of("gh:Rust"), TemplateValue::GitHub(_)));
    assert!(matches!(kind_of("gh:https://example.com"), TemplateValue::GitHub(_)));
}

#[test]
fn explicit_prefixes_select_their_providers() {
    assert!(matches!(kind_of("ghg:Linux"), TemplateValue::GitHubGlobal(_)));
    assert!(matches!(kind_of("ghc:OpenSSL"), TemplateValue::GitHubCommunity(_)));
    assert!(matches!(kind_of("tt:Python"), TemplateValue::TopTal(_)));
    assert!(matches!(kind_of("repo:o/r/b/p"), TemplateValue::GitHubRepo(_)));
    assert!(matches!(kind_of("url:https://example.com"), TemplateValue::Url(_)));
    assert!(matches!(kind_of("file:.gitignore"), TemplateValue::File(_)));
}

#[test]
fn url_heuristic() {
    assert!(matches!(
        kind_of("https://raw.githubusercontent.com/github/gitignore/main/Rust.gitignore"),
        TemplateValue::Url(_)
    ));
}

#[test]
fn repo_heuristic_needs_three_separators() {
    assert!(matches!(
        kind_of("github/gitignore/main/Rust.gitignore"),
        TemplateValue::GitHubRepo(_)
    ));
    assert!(matches!(kind_of("just/two/separators"), TemplateValue::GitHub(_)));
}

#[test]
fn community_and_global_heuristics_are_case_insensitive() {
    assert!(matches!(kind_of("global/Linux"), TemplateValue::GitHubGlobal(_)));
    assert!(matches!(kind_of("Global/Linux"), TemplateValue::GitHubGlobal(_)));
    assert!(matches!(kind_of("community/OpenSSL"), TemplateValue::GitHubCommunity(_)));
    assert!(matches!(kind_of("Community/OpenSSL"), TemplateValue::GitHubCommunity(_)));
}

#[test]
fn default_is_github() {
    assert!(matches!(kind_of("Rust"), TemplateValue::GitHub(_)));
    assert!(matches!(kind_of(""), TemplateValue::GitHub(_)));
}

#[test]
fn names_strip_prefixes_and_suffixes() {
    assert_eq!(kind_of("gh:Rust").name().unwrap(), "Rust");
    assert_eq!(kind_of("gh:Rust.gitignore").name().unwrap(), "Rust");
    assert_eq!(kind_of("Global/Linux").name().unwrap(), "Linux");
    assert_eq!(kind_of("ghg:Linux").name().unwrap(), "Linux");
    assert_eq!(kind_of("Community/Linux/Snap").name().unwrap(), "Linux/Snap");
    assert_eq!(kind_of("ghc:Linux/Snap").name().unwrap(), "Linux/Snap");
    assert_eq!(kind_of("tt:JetBrains+all").name().unwrap(), "JetBrains+all");
    assert_eq!(kind_of("tt:Python.patch").name().unwrap(), "Python");
    assert_eq!(kind_of("tt:Django.stack").name().unwrap(), "Django");
    assert_eq!(kind_of("tt:Rust.gitignore").name().unwrap(), "Rust");
    assert_eq!(
        kind_of("repo:github/gitignore/main/Rust.gitignore").name().unwrap(),
        "github/gitignore/main/Rust.gitignore"
    );
}

#[test]
fn locators_follow_the_provider() {
    assert_eq!(
        kind_of("gh:Rust").url().unwrap(),
        "https://raw.githubusercontent.com/github/gitignore/main/Rust.gitignore"
    );
    assert_eq!(
        kind_of("ghg:Linux").url().unwrap(),
        "https://raw.githubusercontent.com/github/gitignore/main/Global/Linux.gitignore"
    );
    assert_eq!(
        kind_of("ghc:OpenSSL").url().unwrap(),
        "https://raw.githubusercontent.com/github/gitignore/main/community/OpenSSL.gitignore"
    );
    assert_eq!(
        kind_of("repo:github/gitignore/main/Rust.gitignore").url().unwrap(),
        "https://raw.githubusercontent.com/github/gitignore/main/Rust.gitignore"
    );
    assert_eq!(
        kind_of("tt:JetBrains+all").url().unwrap(),
        "https://www.toptal.com/developers/gitignore/api/JetBrains+all"
    );
}

#[test]
fn gh_rust_resolves_end_to_end() {
    let t = Template::new("gh:Rust").unwrap();
    assert!(matches!(t.value, TemplateValue::GitHub(_)));
    assert_eq!(t.value.name().unwrap(), "Rust");
    assert!(t.value.url().unwrap().ends_with("/Rust.gitignore"));
}

#[test]
fn url_locator_is_normalized() {
    let t = Template::new("url:HTTPS://EXAMPLE.COM").unwrap();
    assert_eq!(t.value.url().unwrap(), "https://example.com/");
}

#[test]
fn invalid_url_is_rejected() {
    let t = Template::new("url:not a url at all").unwrap();
    assert_eq!(t.value.url().unwrap_err(), TemplateError::InvalidUrl);
    assert_eq!(
        t.value.url().unwrap_err().message(),
        "invalid URL for ignore template"
    );
}

#[test]
fn missing_file_is_rejected() {
    let t = Template::new("file:/definitely/not/a/real/path/anywhere").unwrap();
    assert_eq!(t.value.url().unwrap_err(), TemplateError::InvalidFilePath);
}

#[test]
fn titles_carry_the_provider_label() {
    assert_eq!(kind_of("gh:Rust").title().unwrap(), "GitHub: Rust");
    assert_eq!(kind_of("tt:Python").title().unwrap(), "TopTal: Python");
    assert_eq!(kind_of("Global/Linux").title().unwrap(), "GitHub Global: Linux");
}

#[test]
fn prefixes_match_their_variants() {
    assert_eq!(kind_of("gh:Rust").prefix(), "gh:");
    assert_eq!(kind_of("ghg:Linux").prefix(), "ghg:");
    assert_eq!(kind_of("ghc:X").prefix(), "ghc:");
    assert_eq!(kind_of("tt:X").prefix(), "tt:");
    assert_eq!(kind_of("repo:a/b/c/d").prefix(), "repo:");
    assert_eq!(kind_of("url:https://example.com").prefix(), "url:");
    assert_eq!(kind_of("file:x").prefix(), "file:");
}

#[test]
fn template_equality_is_structural() {
    let a = Template::new("gh:Rust").unwrap();
    let b = Template::new("gh:Rust").unwrap();
    let c = Template::new("gh:Go").unwrap();
    assert!(a == b);
    assert!(a != c);
    assert!(a.value == b.value);
    assert!(a.value != c.value);
}
