use gitnr::cli::{Cli, CommandCreate, Commands};
use gitnr::collection::{GithubTemplates, TopTalTemplates, Tree, TreeItem, TreeItemKind,
    TemplateCollectionKind};
use gitnr::list::TemplateList;
use gitnr::template::{Template, TemplateError, TemplateValue};
use gitnr::title_string;
use gitnr::ui::{handle_key_events, handle_mouse_events, KeyCode, KeyInput, MouseInput, MouseKind,
    UIAction, UIState, UIStatePreview, UIStatePreviewState, UIStateView};

fn item(path: &str, kind: TreeItemKind) -> TreeItem {
    TreeItem {
        path: path.to_string(),
        mode: "100644".to_string(),
        kind,
        sha: "0000".to_string(),
        size: Some(1),
        url: "https://example.com".to_string(),
    }
}

fn catalogs() -> (GithubTemplates, TopTalTemplates) {
    let tree = Tree {
        sha: "0000".to_string(),
        url: "https://example.com".to_string(),
        truncated: false,
        tree: vec![
            item("Rust.gitignore", TreeItemKind::Blob),
            item("Go.gitignore", TreeItemKind::Blob),
            item("README.md", TreeItemKind::Blob),
            item("Global", TreeItemKind::Tree),
            item("Global/Linux.gitignore", TreeItemKind::Blob),
            item("community/OpenSSL.gitignore", TreeItemKind::Blob),
            item("community/Linux/Snap.gitignore", TreeItemKind::Blob),
        ],
    };
    let gh = GithubTemplates::from_tree(&tree, 42).unwrap();
    let tt = TopTalTemplates::from_list("Python\nDjango\nRust", 42).unwrap();
    (gh, tt)
}

fn names(ts: &[Template]) -> Vec<String> {
    ts.iter().map(|t| t.value.name().unwrap()).collect()
}

fn key(code: KeyCode) -> KeyInput {
    KeyInput { code, shift: false, ctrl: false, release: false }
}

fn shift_key(code: KeyCode) -> KeyInput {
    KeyInput { code, shift: true, ctrl: false, release: false }
}

#[test]
fn tree_partitions_into_three_collections() {
    let (gh, tt) = catalogs();
    assert_eq!(names(&gh.root()), vec!["Rust", "Go"]);
    assert_eq!(names(&gh.global()), vec!["Linux"]);
    assert_eq!(names(&gh.community()), vec!["OpenSSL", "Linux/Snap"]);
    assert_eq!(names(&tt.templates()), vec!["Python", "Django", "Rust"]);
    assert!(matches!(gh.root()[0].value, TemplateValue::GitHub(_)));
    assert!(matches!(gh.global()[0].value, TemplateValue::GitHubGlobal(_)));
    assert!(matches!(gh.community()[0].value, TemplateValue::GitHubCommunity(_)));
    assert!(matches!(tt.templates()[0].value, TemplateValue::TopTal(_)));
}

#[test]
fn collection_kinds_name_their_catalogs() {
    let (gh, tt) = catalogs();
    assert_eq!(TemplateCollectionKind::TopTal.name(), "TopTal");
    assert_eq!(TemplateCollectionKind::GitHub.name(), "GitHub");
    assert_eq!(TemplateCollectionKind::GitHubGlobal.name(), "GitHub Global");
    assert_eq!(TemplateCollectionKind::GitHubCommunity.name(), "GitHub Community");
    assert_eq!(names(&TemplateCollectionKind::GitHub.get(&gh, &tt)), vec!["Rust", "Go"]);
    assert_eq!(
        names(&TemplateCollectionKind::TopTal.get(&gh, &tt)),
        vec!["Python", "Django", "Rust"]
    );
}

#[test]
fn fresh_session_shows_four_tabs() {
    let (gh, tt) = catalogs();
    let app = UIState::new(&gh, &tt, 0);
    assert!(app.running);
    assert!(matches!(app.view, UIStateView::Home));
    assert_eq!(
        app.collection_tab_titles(),
        vec![
            "TopTal".to_string(),
            "GitHub".to_string(),
            "GitHub Global".to_string(),
            "GitHub Community".to_string(),
        ]
    );
}

#[test]
fn tabs_wrap_in_both_directions() {
    let (gh, tt) = catalogs();
    let mut app = UIState::new(&gh, &tt, 0);
    handle_key_events(&mut app, key(KeyCode::Left));
    assert_eq!(app.collection_tab, 3);
    handle_key_events(&mut app, key(KeyCode::Right));
    assert_eq!(app.collection_tab, 0);
}

#[test]
fn cursor_wraps_and_jumps() {
    let (gh, tt) = catalogs();
    let mut app = UIState::new(&gh, &tt, 0);
    // TopTal pane has three rows
    handle_key_events(&mut app, key(KeyCode::Down));
    assert_eq!(app.collection().cursor, 1);
    handle_key_events(&mut app, key(KeyCode::Down));
    handle_key_events(&mut app, key(KeyCode::Down));
    assert_eq!(app.collection().cursor, 0);
    handle_key_events(&mut app, key(KeyCode::Up));
    assert_eq!(app.collection().cursor, 2);
    handle_key_events(&mut app, key(KeyCode::Home));
    assert_eq!(app.collection().cursor, 0);
    handle_key_events(&mut app, key(KeyCode::End));
    assert_eq!(app.collection().cursor, 2);
}

#[test]
fn toggling_twice_leaves_the_selection_unchanged() {
    let (gh, tt) = catalogs();
    let mut app = UIState::new(&gh, &tt, 0);
    handle_key_events(&mut app, key(KeyCode::Enter));
    assert_eq!(app.selected.len(), 1);
    assert_eq!(app.selected[0].template.value.name().unwrap(), "Python");
    handle_key_events(&mut app, key(KeyCode::Enter));
    assert_eq!(app.selected.len(), 0);
}

#[test]
fn filter_keeps_matching_rows_in_order() {
    let (gh, tt) = catalogs();
    let mut app = UIState::new(&gh, &tt, 0);
    handle_key_events(&mut app, key(KeyCode::Char('N')));
    assert_eq!(app.collection_filter, "N");
    // case-insensitive: Python, Django, but not Rust
    assert_eq!(names(&app.collection().values), vec!["Python", "Django"]);
    handle_key_events(&mut app, key(KeyCode::Backspace));
    assert_eq!(app.collection_filter, "");
    assert_eq!(names(&app.collection().values), vec!["Python", "Django", "Rust"]);
}

#[test]
fn switching_tabs_reapplies_the_filter() {
    let (gh, tt) = catalogs();
    let mut app = UIState::new(&gh, &tt, 0);
    handle_key_events(&mut app, key(KeyCode::Char('u')));
    assert_eq!(names(&app.collection().values), vec!["Rust"]);
    handle_key_events(&mut app, key(KeyCode::Right));
    // GitHub pane filtered by the same text
    assert_eq!(names(&app.collection().values), vec!["Rust"]);
    handle_key_events(&mut app, key(KeyCode::Backspace));
    assert_eq!(names(&app.collection().values), vec!["Rust", "Go"]);
}

#[test]
fn ctrl_c_quits() {
    let (gh, tt) = catalogs();
    let mut app = UIState::new(&gh, &tt, 0);
    let ev = KeyInput { code: KeyCode::Char('c'), shift: false, ctrl: true, release: false };
    handle_key_events(&mut app, ev);
    assert!(!app.running);
}

#[test]
fn release_events_are_ignored() {
    let (gh, tt) = catalogs();
    let mut app = UIState::new(&gh, &tt, 0);
    let ev = KeyInput { code: KeyCode::Down, shift: false, ctrl: false, release: true };
    handle_key_events(&mut app, ev);
    assert_eq!(app.collection().cursor, 0);
}

#[test]
fn preview_of_highlighted_template() {
    let (gh, tt) = catalogs();
    let mut app = UIState::new(&gh, &tt, 0);
    let action = handle_key_events(&mut app, shift_key(KeyCode::Char('c')));
    match action {
        UIAction::OpenPreview(l) => {
            assert_eq!(l.count(), 1);
            assert_eq!(l.items[0].value.name().unwrap(), "Python");
        },
        _ => panic!("expected a preview request"),
    }
}

#[test]
fn preview_of_selection_in_order() {
    let (gh, tt) = catalogs();
    let mut app = UIState::new(&gh, &tt, 0);
    handle_key_events(&mut app, key(KeyCode::Enter));
    handle_key_events(&mut app, key(KeyCode::Down));
    handle_key_events(&mut app, key(KeyCode::Enter));
    let action = handle_key_events(&mut app, shift_key(KeyCode::Char('s')));
    match action {
        UIAction::OpenPreview(l) => {
            assert_eq!(names(&l.items), vec!["Python", "Django"]);
        },
        _ => panic!("expected a preview request"),
    }
}

fn preview_app() -> UIState {
    let (gh, tt) = catalogs();
    let mut app = UIState::new(&gh, &tt, 0);
    let templates = TemplateList::new(vec![Template::new("gh:Rust").unwrap()]);
    let p = UIStatePreview::new(templates, &vec!["line one\nline two\nline three".to_string()])
        .unwrap();
    app.view = UIStateView::Preview(p);
    app
}

#[test]
fn preview_carries_content_command_and_title() {
    let app = preview_app();
    match &app.view {
        UIStateView::Preview(p) => {
            assert_eq!(p.title, " Preview: Rust ");
            assert_eq!(p.command, "gitnr create gh:Rust");
            assert!(p.content.ends_with("line one\nline two\nline three"));
            assert_eq!(p.content_lines as usize, p.content.matches('\n').count() + 1);
            assert!(matches!(p.state, UIStatePreviewState::Default));
            assert_eq!(p.scroll_pos, 0);
        },
        _ => panic!("expected the preview view"),
    }
}

#[test]
fn preview_title_counts_a_multi_selection() {
    let templates = TemplateList::new(vec![
        Template::new("gh:Rust").unwrap(),
        Template::new("tt:Python").unwrap(),
    ]);
    let bodies = vec!["a".to_string(), "b".to_string()];
    let p = UIStatePreview::new(templates, &bodies).unwrap();
    assert_eq!(p.title, " Preview: Selected (2) ");
    assert_eq!(p.command, "gitnr create gh:Rust tt:Python");
}

fn scroll_pos(app: &UIState) -> u16 {
    match &app.view {
        UIStateView::Preview(p) => p.scroll_pos,
        _ => panic!("expected the preview view"),
    }
}

#[test]
fn preview_scrolling_saturates() {
    let mut app = preview_app();
    handle_key_events(&mut app, key(KeyCode::Up));
    assert_eq!(scroll_pos(&app), 0);
    handle_key_events(&mut app, key(KeyCode::Down));
    assert_eq!(scroll_pos(&app), 1);
    handle_key_events(&mut app, key(KeyCode::End));
    let bottom = scroll_pos(&app);
    handle_key_events(&mut app, key(KeyCode::Down));
    assert_eq!(scroll_pos(&app), bottom);
    handle_key_events(&mut app, key(KeyCode::Home));
    assert_eq!(scroll_pos(&app), 0);
}

#[test]
fn copy_banner_survives_its_own_key_and_closes_on_others() {
    let mut app = preview_app();
    let action = handle_key_events(&mut app, shift_key(KeyCode::Char('c')));
    match (&action, &app.view) {
        (UIAction::Copy(text), UIStateView::Preview(p)) => {
            assert_eq!(*text, p.content);
            assert!(matches!(p.state, UIStatePreviewState::CopiedContent));
        },
        _ => panic!("expected a copy request"),
    }
    // the key that triggered the copy does not dismiss the banner
    handle_key_events(&mut app, key(KeyCode::Char('c')));
    match &app.view {
        UIStateView::Preview(p) => assert!(matches!(p.state, UIStatePreviewState::CopiedContent)),
        _ => panic!("expected the preview view"),
    }
    // any other key does
    handle_key_events(&mut app, key(KeyCode::Down));
    match &app.view {
        UIStateView::Preview(p) => {
            assert!(matches!(p.state, UIStatePreviewState::Default));
            assert_eq!(p.scroll_pos, 0);
        },
        _ => panic!("expected the preview view"),
    }
}

#[test]
fn copy_command_returns_the_command_text() {
    let mut app = preview_app();
    let action = handle_key_events(&mut app, shift_key(KeyCode::Char('x')));
    match action {
        UIAction::Copy(text) => assert_eq!(text, "gitnr create gh:Rust"),
        _ => panic!("expected a copy request"),
    }
}

#[test]
fn esc_returns_to_home() {
    let mut app = preview_app();
    handle_key_events(&mut app, key(KeyCode::Esc));
    assert!(matches!(app.view, UIStateView::Home));
}

#[test]
fn wheel_scrolls_are_debounced() {
    let (gh, tt) = catalogs();
    let mut app = UIState::new(&gh, &tt, 1000);
    let wheel = MouseInput { kind: MouseKind::ScrollDown, shift: false, alt: false };
    handle_mouse_events(&mut app, wheel, 1020);
    assert_eq!(app.collection().cursor, 1);
    // within 15 ms of the accepted scroll: dropped
    handle_mouse_events(&mut app, wheel, 1030);
    assert_eq!(app.collection().cursor, 1);
    handle_mouse_events(&mut app, wheel, 1040);
    assert_eq!(app.collection().cursor, 2);
}

#[test]
fn mouse_click_toggles_the_selection() {
    let (gh, tt) = catalogs();
    let mut app = UIState::new(&gh, &tt, 0);
    let click = MouseInput { kind: MouseKind::LeftDown, shift: false, alt: false };
    handle_mouse_events(&mut app, click, 0);
    assert_eq!(app.selected.len(), 1);
    handle_mouse_events(&mut app, click, 0);
    assert_eq!(app.selected.len(), 0);
}

#[test]
fn cli_splits_comma_separated_arguments() {
    let cli = Cli {
        refresh: false,
        command: Some(Commands::Create(CommandCreate {
            out_gitignore: false,
            out_file: None,
            templates: vec!["gh:Rust,tt:Python".to_string(), "ghg:Linux".to_string()],
        })),
    };
    let l = cli.templates().unwrap();
    assert_eq!(names(&l.items), vec!["Rust", "Python", "Linux"]);
}

#[test]
fn cli_rejects_templates_without_a_create_command() {
    let none = Cli { refresh: false, command: None };
    assert_eq!(none.templates().unwrap_err(), TemplateError::UnknownCommand);
    let search = Cli { refresh: false, command: Some(Commands::Search) };
    assert_eq!(search.templates().unwrap_err(), TemplateError::SearchCommandArgs);
}

#[test]
fn title_string_pads_with_spaces() {
    assert_eq!(title_string("Tab".to_string()), " Tab ");
}
