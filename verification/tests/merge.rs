use gitnr::list::TemplateList;
use gitnr::strutil::{replace_multiple_empty_lines, strip_prefixes, strip_suffixes,
    trim_duplicate_lines};
use gitnr::template::Template;

fn banner(title: &str) -> String {
    let line = format!("###  {}  ###", title);
    let rule = format!("###{}###", "-".repeat(line.len() - 4));
    format!("{}\n{}\n{}\n", rule, line, rule)
}

fn list(inputs: &[&str]) -> TemplateList {
    TemplateList::new(inputs.iter().map(|s| Template::new(s).unwrap()).collect())
}

#[test]
fn single_template_content_is_banner_plus_raw_body() {
    let l = list(&["gh:Rust"]);
    let body = "target/\ndebug/\ntarget/";
    let out = l.content(&vec![body.to_string()]).unwrap();
    assert_eq!(out, format!("{}\n{}", banner("GitHub: Rust"), body));
}

#[test]
fn single_template_applies_no_dedup() {
    let l = list(&["gh:Rust"]);
    let body = "same\nsame\n\n\nsame";
    let out = l.content(&vec![body.to_string()]).unwrap();
    // duplicate lines and the blank run survive byte-for-byte
    assert!(out.ends_with("same\nsame\n\n\nsame"));
}

#[test]
fn multi_template_content_dedups_across_bodies() {
    let l = list(&["gh:Rust", "tt:JetBrains+all"]);
    let bodies = vec!["a\nb".to_string(), "b\nc".to_string()];
    let out = l.content(&bodies).unwrap();
    let expected = format!(
        "{}\na\nb\n\n{}\nc",
        banner("GitHub: Rust"),
        banner("TopTal: JetBrains+all")
    );
    assert_eq!(out, expected);
}

#[test]
fn two_sections_in_list_order_without_repeats() {
    let l = list(&["gh:Rust", "tt:JetBrains+all"]);
    let bodies = vec!["target/\n*.iml".to_string(), "*.iml\n.idea/".to_string()];
    let out = l.content(&bodies).unwrap();
    let first = out.find("GitHub: Rust").unwrap();
    let second = out.find("TopTal: JetBrains+all").unwrap();
    assert!(first < second);
    assert_eq!(out.matches("*.iml").count(), 1);
    assert_eq!(out.matches("target/").count(), 1);
    assert_eq!(out.matches(".idea/").count(), 1);
}

#[test]
fn dedup_keeps_first_occurrence_and_blank_lines() {
    let bodies = vec!["a\nb\n\n\nc".to_string(), "b\nc\nd".to_string()];
    let out = trim_duplicate_lines(bodies);
    assert_eq!(out, vec!["a\nb\n\nc\n".to_string(), "d\n".to_string()]);
}

#[test]
fn dedup_drops_repeats_within_one_body() {
    let out = trim_duplicate_lines(vec!["x\ny\nx".to_string()]);
    assert_eq!(out, vec!["x\ny\n".to_string()]);
}

#[test]
fn blank_runs_collapse_to_one_blank_line() {
    assert_eq!(replace_multiple_empty_lines("x\n\n\n\ny"), "x\n\ny\n");
    assert_eq!(replace_multiple_empty_lines("\n\na"), "\na\n");
    assert_eq!(replace_multiple_empty_lines("a\n \n\t\nb"), "a\n\nb\n");
    assert_eq!(replace_multiple_empty_lines(""), "");
}

#[test]
fn content_preview_returns_raw_body_for_one_template() {
    let l = list(&["gh:Rust"]);
    let out = l.content_preview(&vec!["raw body".to_string()]).unwrap();
    assert_eq!(out, "raw body");
}

#[test]
fn content_preview_joins_sections_without_dedup() {
    let l = list(&["gh:Rust", "gh:Go"]);
    let out = l.content_preview(&vec!["a".to_string(), "a".to_string()]).unwrap();
    assert_eq!(out.matches("\na").count(), 2);
}

#[test]
fn command_reproduces_the_list() {
    let l = list(&["gh:Rust", "tt:JetBrains+all", "Global/Linux"]);
    assert_eq!(
        l.command().unwrap(),
        "gitnr create gh:Rust tt:JetBrains+all ghg:Linux"
    );
}

#[test]
fn command_for_empty_list_is_trimmed() {
    let l = list(&[]);
    assert_eq!(l.command().unwrap(), "gitnr create");
}

#[test]
fn count_reports_the_list_length() {
    assert_eq!(list(&[]).count(), 0);
    assert_eq!(list(&["gh:Rust", "gh:Go"]).count(), 2);
}

#[test]
fn strip_prefixes_takes_the_first_match() {
    assert_eq!(strip_prefixes("ghg:Linux", &vec!["ghg:", "global/", "Global/"]), Some("Linux"));
    assert_eq!(strip_prefixes("Global/Linux", &vec!["ghg:", "global/", "Global/"]), Some("Linux"));
    assert_eq!(strip_prefixes("GLOBAL/Linux", &vec!["ghg:", "global/", "Global/"]), None);
}

#[test]
fn strip_suffixes_takes_the_first_match() {
    assert_eq!(strip_suffixes("a.gitignore", &vec![".gitignore", ".patch"]), Some("a"));
    assert_eq!(strip_suffixes("a.patch", &vec![".gitignore", ".patch"]), Some("a"));
    assert_eq!(strip_suffixes("a.stack", &vec![".gitignore", ".patch"]), None);
}

#[test]
fn content_title_has_three_banner_lines() {
    let t = Template::new("gh:Rust").unwrap();
    assert_eq!(t.content_title().unwrap(), banner("GitHub: Rust"));
}
