//! Per-provider template catalogs: the GitHub repository tree partitioned
//! into root, global and community collections, the TopTal name list, and the
//! collection handle the interactive view works with.

use vstd::prelude::*;
use crate::strutil::{has_prefix, has_suffix, find_char, lemma_find_char_at, starts_with_str,
    ends_with_str, substr_copy, split_lines_exec, split_lines_spec};
use crate::template::{ProviderKind, Template, TemplateError, resolve_kind, url_normal_form};

verus! {

// ---------------------------------------------------------------------------
// The GitHub repository tree
// ---------------------------------------------------------------------------

/// A GitHub tree API response.
#[derive(Debug)]
pub struct Tree {
    pub sha: String,
    pub url: String,
    pub truncated: bool,
    pub tree: Vec<TreeItem>,
}

/// Kind of one tree entry.
#[derive(Debug, Clone, Copy, PartialEq, Eq, Structural)]
pub enum TreeItemKind {
    Tree,
    Blob,
}

/// One entry of a GitHub tree listing.
#[derive(Debug)]
pub struct TreeItem {
    pub path: String,
    pub mode: String,
    pub kind: TreeItemKind,
    pub sha: String,
    pub size: Option<i64>,
    pub url: String,
}

impl View for TreeItem {
    type V = (Seq<char>, TreeItemKind);

    open spec fn view(&self) -> (Seq<char>, TreeItemKind) {
        (self.path@, self.kind)
    }
}

impl DeepView for TreeItem {
    type V = (Seq<char>, TreeItemKind);

    open spec fn deep_view(&self) -> (Seq<char>, TreeItemKind) {
        self@
    }
}

/// `c` occurs somewhere in `s`.
pub open spec fn has_char(s: Seq<char>, c: char) -> bool {
    exists|i: int| 0 <= i < s.len() && s[i] == c
}

/// A blob path ending in `.gitignore`, with the suffix removed; `None` for
/// anything else.
pub open spec fn gitignore_stem(it: (Seq<char>, TreeItemKind)) -> Option<Seq<char>> {
    if it.1 != TreeItemKind::Tree && has_suffix(it.0, ".gitignore"@) {
        Some(it.0.take(it.0.len() - ".gitignore"@.len()))
    } else {
        None
    }
}

/// The root-collection input string one tree item contributes, if any: stems
/// without a path separator, as `gh:`-prefixed inputs.
pub open spec fn root_contrib(it: (Seq<char>, TreeItemKind)) -> Seq<Seq<char>> {
    match gitignore_stem(it) {
        Some(stem) => if !has_char(stem, '/') {
            seq!["gh:"@ + stem]
        } else {
            Seq::empty()
        },
        None => Seq::empty(),
    }
}

/// The global-collection input one item contributes: stems under `Global/`,
/// as `ghg:`-prefixed inputs.
pub open spec fn global_contrib(it: (Seq<char>, TreeItemKind)) -> Seq<Seq<char>> {
    match gitignore_stem(it) {
        Some(stem) => if has_char(stem, '/') && has_prefix(stem, "Global/"@) {
            seq!["ghg:"@ + stem.skip("Global/"@.len() as int)]
        } else {
            Seq::empty()
        },
        None => Seq::empty(),
    }
}

/// The community-collection input one item contributes: stems under
/// `community/` (and not under `Global/`), as `ghc:`-prefixed inputs.
pub open spec fn community_contrib(it: (Seq<char>, TreeItemKind)) -> Seq<Seq<char>> {
    match gitignore_stem(it) {
        Some(stem) => if has_char(stem, '/') && !has_prefix(stem, "Global/"@) && has_prefix(
            stem,
            "community/"@,
        ) {
            seq!["ghc:"@ + stem.skip("community/"@.len() as int)]
        } else {
            Seq::empty()
        },
        None => Seq::empty(),
    }
}

/// All inputs a tree contributes under one contribution rule, in tree order.
pub open spec fn tree_inputs(
    items: Seq<(Seq<char>, TreeItemKind)>,
    rule: spec_fn((Seq<char>, TreeItemKind)) -> Seq<Seq<char>>,
) -> Seq<Seq<char>>
    decreases items.len(),
{
    if items.len() == 0 {
        Seq::empty()
    } else {
        tree_inputs(items.drop_last(), rule) + rule(items.last())
    }
}

/// The template views that a list of prefixed inputs resolves to: each input
/// kept as entered, resolved to the given provider.
pub open spec fn templates_of(inputs: Seq<Seq<char>>, k: ProviderKind) -> Seq<
    (Seq<char>, (ProviderKind, Seq<char>)),
> {
    inputs.map_values(|s: Seq<char>| (s, (k, s)))
}

// ---------------------------------------------------------------------------
// GitHub catalogs
// ---------------------------------------------------------------------------

/// The three GitHub ignore template collections, as parsed out of one
/// recursive repository tree listing.
#[derive(Debug)]
pub struct GithubTemplates {
    /// When the collections were last refreshed (seconds since epoch).
    pub updated: u64,
    /// Root directory templates.
    pub root: Vec<Template>,
    /// `Global/` directory templates.
    pub global: Vec<Template>,
    /// `community/` directory templates.
    pub community: Vec<Template>,
}

impl GithubTemplates {
    /// Partitions one recursive tree listing into the three collections, in
    /// a single pass over the blob paths ending in `.gitignore`.
    pub fn from_tree(tree: &Tree, now: u64) -> (r: Result<GithubTemplates, TemplateError>)
        ensures
            r is Ok,
            (r->Ok_0).updated == now,
            (r->Ok_0).root.deep_view() == templates_of(
                tree_inputs(tree.tree.deep_view(), |it| root_contrib(it)),
                ProviderKind::GitHub,
            ),
            (r->Ok_0).global.deep_view() == templates_of(
                tree_inputs(tree.tree.deep_view(), |it| global_contrib(it)),
                ProviderKind::GitHubGlobal,
            ),
            (r->Ok_0).community.deep_view() == templates_of(
                tree_inputs(tree.tree.deep_view(), |it| community_contrib(it)),
                ProviderKind::GitHubCommunity,
            ),
    {
        let ghost items = tree.tree.deep_view();
        let ghost rc = |it| root_contrib(it);
        let ghost gc = |it| global_contrib(it);
        let ghost cc = |it| community_contrib(it);
        let mut root: Vec<Template> = Vec::new();
        let mut global: Vec<Template> = Vec::new();
        let mut community: Vec<Template> = Vec::new();
        let mut i: usize = 0;
        proof {
            assert(items.take(0) =~= Seq::<(Seq<char>, TreeItemKind)>::empty());
            assert(root.deep_view() =~= templates_of(
                tree_inputs(items.take(0), rc),
                ProviderKind::GitHub,
            ));
            assert(global.deep_view() =~= templates_of(
                tree_inputs(items.take(0), gc),
                ProviderKind::GitHubGlobal,
            ));
            assert(community.deep_view() =~= templates_of(
                tree_inputs(items.take(0), cc),
                ProviderKind::GitHubCommunity,
            ));
        }
        while i < tree.tree.len()
            invariant
                i <= tree.tree.len(),
                items == tree.tree.deep_view(),
                rc == |it| root_contrib(it),
                gc == |it| global_contrib(it),
                cc == |it| community_contrib(it),
                root.deep_view() == templates_of(
                    tree_inputs(items.take(i as int), rc),
                    ProviderKind::GitHub,
                ),
                global.deep_view() == templates_of(
                    tree_inputs(items.take(i as int), gc),
                    ProviderKind::GitHubGlobal,
                ),
                community.deep_view() == templates_of(
                    tree_inputs(items.take(i as int), cc),
                    ProviderKind::GitHubCommunity,
                ),
            decreases tree.tree.len() - i,
        {
            proof {
                assert(items.take(i + 1 as int).drop_last() =~= items.take(i as int));
                assert(items.take(i + 1 as int).last() == items[i as int]);
            }
            let item = &tree.tree[i];
            let ghost itv = items[i as int];
            if item.kind != TreeItemKind::Tree && ends_with_str(item.path.as_str(), ".gitignore") {
                proof {
                    reveal_strlit(".gitignore");
                }
                let n = item.path.unicode_len();
                let stem = substr_copy(item.path.as_str(), 0, n - 10);
                proof {
                    assert(stem@ =~= gitignore_stem(itv)->0);
                }
                let stem_len = stem.unicode_len();
                let slash = find_char(stem.as_str(), '/', 0);
                proof {
                    lemma_find_char_at(stem@, '/', 0);
                }
                if slash == stem_len {
                    // root template
                    proof {
                        assert(!has_char(stem@, '/'));
                    }
                    let mut input = "gh:".to_owned();
                    input.append(stem.as_str());
                    proof {
                        assert(input@.subrange(0, "gh:"@.len() as int) =~= "gh:"@);
                    }
                    let t = new_prefixed_template(input, GhPrefix::Root);
                    let ghost rdv = root.deep_view();
                    root.push(t);
                    proof {
                        assert(root.deep_view() =~= rdv.push((
                            "gh:"@ + stem@,
                            (ProviderKind::GitHub, "gh:"@ + stem@),
                        )));
                        assert(rc(itv) =~= seq!["gh:"@ + stem@]);
                        lemma_templates_of_push(
                            tree_inputs(items.take(i as int), rc),
                            "gh:"@ + stem@,
                            ProviderKind::GitHub,
                        );
                        assert(tree_inputs(items.take(i + 1 as int), rc) =~= tree_inputs(
                            items.take(i as int),
                            rc,
                        ).push("gh:"@ + stem@));
                        assert(gc(itv) =~= Seq::<Seq<char>>::empty());
                        assert(cc(itv) =~= Seq::<Seq<char>>::empty());
                        assert(tree_inputs(items.take(i + 1 as int), gc) =~= tree_inputs(
                            items.take(i as int),
                            gc,
                        ));
                        assert(tree_inputs(items.take(i + 1 as int), cc) =~= tree_inputs(
                            items.take(i as int),
                            cc,
                        ));
                    }
                } else if starts_with_str(stem.as_str(), "Global/") {
                    proof {
                        assert(has_char(stem@, '/'));
                    }
                    proof {
                        reveal_strlit("Global/");
                    }
                    let rest = substr_copy(stem.as_str(), 7, stem_len);
                    proof {
                        assert(rest@ =~= stem@.skip("Global/"@.len() as int));
                    }
                    let mut input = "ghg:".to_owned();
                    input.append(rest.as_str());
                    proof {
                        assert(input@.subrange(0, "ghg:"@.len() as int) =~= "ghg:"@);
                    }
                    let t = new_prefixed_template(input, GhPrefix::Global);
                    let ghost gdv = global.deep_view();
                    global.push(t);
                    proof {
                        assert(global.deep_view() =~= gdv.push((
                            "ghg:"@ + rest@,
                            (ProviderKind::GitHubGlobal, "ghg:"@ + rest@),
                        )));
                        assert(gc(itv) =~= seq!["ghg:"@ + rest@]);
                        lemma_templates_of_push(
                            tree_inputs(items.take(i as int), gc),
                            "ghg:"@ + rest@,
                            ProviderKind::GitHubGlobal,
                        );
                        assert(tree_inputs(items.take(i + 1 as int), gc) =~= tree_inputs(
                            items.take(i as int),
                            gc,
                        ).push("ghg:"@ + rest@));
                        assert(rc(itv) =~= Seq::<Seq<char>>::empty());
                        assert(cc(itv) =~= Seq::<Seq<char>>::empty());
                        assert(tree_inputs(items.take(i + 1 as int), rc) =~= tree_inputs(
                            items.take(i as int),
                            rc,
                        ));
                        assert(tree_inputs(items.take(i + 1 as int), cc) =~= tree_inputs(
                            items.take(i as int),
                            cc,
                        ));
                    }
                } else if starts_with_str(stem.as_str(), "community/") {
                    proof {
                        assert(has_char(stem@, '/'));
                    }
                    proof {
                        reveal_strlit("community/");
                    }
                    let rest = substr_copy(stem.as_str(), 10, stem_len);
                    proof {
                        assert(rest@ =~= stem@.skip("community/"@.len() as int));
                    }
                    let mut input = "ghc:".to_owned();
                    input.append(rest.as_str());
                    proof {
                        assert(input@.subrange(0, "ghc:"@.len() as int) =~= "ghc:"@);
                    }
                    let t = new_prefixed_template(input, GhPrefix::Community);
                    let ghost cdv = community.deep_view();
                    community.push(t);
                    proof {
                        assert(community.deep_view() =~= cdv.push((
                            "ghc:"@ + rest@,
                            (ProviderKind::GitHubCommunity, "ghc:"@ + rest@),
                        )));
                        assert(cc(itv) =~= seq!["ghc:"@ + rest@]);
                        lemma_templates_of_push(
                            tree_inputs(items.take(i as int), cc),
                            "ghc:"@ + rest@,
                            ProviderKind::GitHubCommunity,
                        );
                        assert(tree_inputs(items.take(i + 1 as int), cc) =~= tree_inputs(
                            items.take(i as int),
                            cc,
                        ).push("ghc:"@ + rest@));
                        assert(rc(itv) =~= Seq::<Seq<char>>::empty());
                        assert(gc(itv) =~= Seq::<Seq<char>>::empty());
                        assert(tree_inputs(items.take(i + 1 as int), rc) =~= tree_inputs(
                            items.take(i as int),
                            rc,
                        ));
                        assert(tree_inputs(items.take(i + 1 as int), gc) =~= tree_inputs(
                            items.take(i as int),
                            gc,
                        ));
                    }
                } else {
                    proof {
                        assert(has_char(stem@, '/'));
                        assert(rc(itv) =~= Seq::<Seq<char>>::empty());
                        assert(gc(itv) =~= Seq::<Seq<char>>::empty());
                        assert(cc(itv) =~= Seq::<Seq<char>>::empty());
                        lemma_tree_inputs_same(items, rc, gc, cc, i as int);
                    }
                }
            } else {
                proof {
                    assert(gitignore_stem(itv) is None);
                    assert(rc(itv) =~= Seq::<Seq<char>>::empty());
                    assert(gc(itv) =~= Seq::<Seq<char>>::empty());
                    assert(cc(itv) =~= Seq::<Seq<char>>::empty());
                    lemma_tree_inputs_same(items, rc, gc, cc, i as int);
                }
            }
            i += 1;
        }
        proof {
            assert(items.take(tree.tree.len() as int) =~= items);
        }
        Ok(GithubTemplates { updated: now, root, global, community })
    }
}

/// Which explicit GitHub prefix a catalog entry was built with.
enum GhPrefix {
    Root,
    Global,
    Community,
}

/// Builds the template for a catalog entry whose input already carries its
/// explicit provider prefix, so resolution is independent of the machine.
fn new_prefixed_template(input: String, p: GhPrefix) -> (t: Template)
    requires
        match p {
            GhPrefix::Root => has_prefix(input@, "gh:"@),
            GhPrefix::Global => has_prefix(input@, "ghg:"@),
            GhPrefix::Community => has_prefix(input@, "ghc:"@),
        },
    ensures
        t@ == (input@, (
            match p {
                GhPrefix::Root => ProviderKind::GitHub,
                GhPrefix::Global => ProviderKind::GitHubGlobal,
                GhPrefix::Community => ProviderKind::GitHubCommunity,
            },
            input@,
        )),
{
    let t = match Template::new(input.as_str()) {
        Ok(t) => t,
        Err(_) => {
            proof {
                assert(false);
            }
            unreached()
        },
    };
    proof {
        let pe = choose|pe: bool|
            t@.1.0 == #[trigger] resolve_kind(input@, url_normal_form(input@) is Some, pe);
        reveal_strlit("gh:");
        reveal_strlit("ghg:");
        reveal_strlit("ghc:");
        match p {
            GhPrefix::Root => {
                assert(t@.1.0 == ProviderKind::GitHub);
            },
            GhPrefix::Global => {
                assert(input@.subrange(0, 4)[2] == input@[2]);
                assert(input@[2] == 'g');
                if has_prefix(input@, "gh:"@) {
                    assert(input@.subrange(0, 3)[2] == input@[2]);
                    assert(input@[2] == ':');
                    assert(false);
                }
                assert(t@.1.0 == ProviderKind::GitHubGlobal);
            },
            GhPrefix::Community => {
                assert(input@.subrange(0, 4)[2] == input@[2]);
                assert(input@[2] == 'c');
                if has_prefix(input@, "gh:"@) {
                    assert(input@.subrange(0, 3)[2] == input@[2]);
                    assert(input@[2] == ':');
                    assert(false);
                }
                if has_prefix(input@, "ghg:"@) {
                    assert(input@.subrange(0, 4)[2] == input@[2]);
                    assert(input@[2] == 'g');
                    assert(false);
                }
                assert(t@.1.0 == ProviderKind::GitHubCommunity);
            },
        }
    }
    t
}

/// Mapping inputs to template views commutes with appending one input.
proof fn lemma_templates_of_push(inputs: Seq<Seq<char>>, x: Seq<char>, k: ProviderKind)
    ensures
        templates_of(inputs.push(x), k) =~= templates_of(inputs, k).push((x, (k, x))),
{
}

/// A tree item contributing nothing leaves all three input lists unchanged.
proof fn lemma_tree_inputs_same(
    items: Seq<(Seq<char>, TreeItemKind)>,
    rc: spec_fn((Seq<char>, TreeItemKind)) -> Seq<Seq<char>>,
    gc: spec_fn((Seq<char>, TreeItemKind)) -> Seq<Seq<char>>,
    cc: spec_fn((Seq<char>, TreeItemKind)) -> Seq<Seq<char>>,
    i: int,
)
    requires
        0 <= i < items.len(),
        rc(items[i]) == Seq::<Seq<char>>::empty(),
        gc(items[i]) == Seq::<Seq<char>>::empty(),
        cc(items[i]) == Seq::<Seq<char>>::empty(),
    ensures
        tree_inputs(items.take(i + 1), rc) == tree_inputs(items.take(i), rc),
        tree_inputs(items.take(i + 1), gc) == tree_inputs(items.take(i), gc),
        tree_inputs(items.take(i + 1), cc) == tree_inputs(items.take(i), cc),
{
    assert(items.take(i + 1).drop_last() =~= items.take(i));
    assert(items.take(i + 1).last() == items[i]);
    assert(tree_inputs(items.take(i + 1), rc) =~= tree_inputs(items.take(i), rc));
    assert(tree_inputs(items.take(i + 1), gc) =~= tree_inputs(items.take(i), gc));
    assert(tree_inputs(items.take(i + 1), cc) =~= tree_inputs(items.take(i), cc));
}

/// An element-for-element copy of a template list.
pub fn clone_templates(src: &Vec<Template>) -> (r: Vec<Template>)
    ensures
        r@ == src@,
{
    let mut out: Vec<Template> = Vec::new();
    let mut i: usize = 0;
    while i < src.len()
        invariant
            i <= src.len(),
            out@ == src@.take(i as int),
        decreases src.len() - i,
    {
        out.push(src[i].clone());
        proof {
            assert(out@ =~= src@.take(i + 1 as int));
        }
        i += 1;
    }
    proof {
        assert(src@.take(src.len() as int) =~= src@);
    }
    out
}

impl GithubTemplates {
    /// The root GitHub ignore templates.
    pub fn root(&self) -> (r: Vec<Template>)
        ensures
            r@ == self.root@,
    {
        clone_templates(&self.root)
    }

    /// The global GitHub ignore templates.
    pub fn global(&self) -> (r: Vec<Template>)
        ensures
            r@ == self.global@,
    {
        clone_templates(&self.global)
    }

    /// The community GitHub ignore templates.
    pub fn community(&self) -> (r: Vec<Template>)
        ensures
            r@ == self.community@,
    {
        clone_templates(&self.community)
    }
}

// ---------------------------------------------------------------------------
// TopTal catalog
// ---------------------------------------------------------------------------

/// The TopTal template list.
#[derive(Debug)]
pub struct TopTalTemplates {
    /// When the list was last refreshed (seconds since epoch).
    pub updated: u64,
    /// The templates, one per listed name.
    pub templates: Vec<Template>,
}

/// Each listed name as a `tt:`-prefixed input.
pub open spec fn toptal_inputs(names: Seq<Seq<char>>) -> Seq<Seq<char>> {
    names.map_values(|l: Seq<char>| "tt:"@ + l)
}

impl TopTalTemplates {
    /// Builds the catalog from the newline-delimited name list the TopTal
    /// endpoint returns.
    pub fn from_list(list: &str, now: u64) -> (r: Result<TopTalTemplates, TemplateError>)
        ensures
            r is Ok,
            (r->Ok_0).updated == now,
            (r->Ok_0).templates.deep_view() == templates_of(
                toptal_inputs(split_lines_spec(list@)),
                ProviderKind::TopTal,
            ),
    {
        let lines = split_lines_exec(list);
        let ghost names = lines.deep_view();
        let mut templates: Vec<Template> = Vec::new();
        let mut i: usize = 0;
        while i < lines.len()
            invariant
                i <= lines.len(),
                names == lines.deep_view(),
                templates.deep_view() == templates_of(
                    toptal_inputs(names.take(i as int)),
                    ProviderKind::TopTal,
                ),
            decreases lines.len() - i,
        {
            let mut input = "tt:".to_owned();
            input.append(lines[i].as_str());
            proof {
                assert(input@.subrange(0, "tt:"@.len() as int) =~= "tt:"@);
            }
            let t = new_toptal_template(input);
            let ghost tdv = templates.deep_view();
            templates.push(t);
            proof {
                let nm = names[i as int];
                assert(templates.deep_view() =~= tdv.push((
                    "tt:"@ + nm,
                    (ProviderKind::TopTal, "tt:"@ + nm),
                )));
                assert(templates_of(toptal_inputs(names.take(i + 1 as int)), ProviderKind::TopTal)
                    =~= templates_of(toptal_inputs(names.take(i as int)), ProviderKind::TopTal)
                    .push(("tt:"@ + nm, (ProviderKind::TopTal, "tt:"@ + nm))));
            }
            i += 1;
        }
        proof {
            assert(names.take(lines.len() as int) =~= names);
        }
        Ok(TopTalTemplates { updated: now, templates })
    }

    /// The TopTal templates list.
    pub fn templates(&self) -> (r: Vec<Template>)
        ensures
            r@ == self.templates@,
    {
        clone_templates(&self.templates)
    }
}

/// Builds the template for one `tt:`-prefixed catalog entry.
fn new_toptal_template(input: String) -> (t: Template)
    requires
        has_prefix(input@, "tt:"@),
    ensures
        t@ == (input@, (ProviderKind::TopTal, input@)),
{
    let t = match Template::new(input.as_str()) {
        Ok(t) => t,
        Err(_) => {
            proof {
                assert(false);
            }
            unreached()
        },
    };
    proof {
        let pe = choose|pe: bool|
            t@.1.0 == #[trigger] resolve_kind(input@, url_normal_form(input@) is Some, pe);
        reveal_strlit("gh:");
        reveal_strlit("ghg:");
        reveal_strlit("ghc:");
        reveal_strlit("tt:");
        assert(input@.subrange(0, 3)[0] == input@[0]);
        assert(input@[0] == 't');
        if has_prefix(input@, "gh:"@) {
            assert(input@.subrange(0, 3)[0] == input@[0]);
            assert(input@[0] == 'g');
            assert(false);
        }
        if has_prefix(input@, "ghg:"@) {
            assert(input@.subrange(0, 4)[0] == input@[0]);
            assert(input@[0] == 'g');
            assert(false);
        }
        if has_prefix(input@, "ghc:"@) {
            assert(input@.subrange(0, 4)[0] == input@[0]);
            assert(input@[0] == 'g');
            assert(false);
        }
        assert(t@.1.0 == ProviderKind::TopTal);
    }
    t
}

// ---------------------------------------------------------------------------
// Collections as the interactive view sees them
// ---------------------------------------------------------------------------

/// The available predefined template collections.
#[derive(Debug, Clone, Copy, PartialEq, Eq, Structural)]
pub enum TemplateCollectionKind {
    TopTal,
    GitHub,
    GitHubCommunity,
    GitHubGlobal,
}

/// The display name of each collection.
pub open spec fn collection_kind_name(k: TemplateCollectionKind) -> Seq<char> {
    match k {
        TemplateCollectionKind::TopTal => "TopTal"@,
        TemplateCollectionKind::GitHub => "GitHub"@,
        TemplateCollectionKind::GitHubCommunity => "GitHub Community"@,
        TemplateCollectionKind::GitHubGlobal => "GitHub Global"@,
    }
}

impl TemplateCollectionKind {
    /// Display name of the template collection.
    pub fn name(&self) -> (r: &str)
        ensures
            r@ == collection_kind_name(*self),
    {
        match self {
            TemplateCollectionKind::TopTal => "TopTal",
            TemplateCollectionKind::GitHub => "GitHub",
            TemplateCollectionKind::GitHubCommunity => "GitHub Community",
            TemplateCollectionKind::GitHubGlobal => "GitHub Global",
        }
    }

    /// The templates this collection draws from the given catalogs.
    pub fn get(&self, gh: &GithubTemplates, tt: &TopTalTemplates) -> (r: Vec<Template>)
        ensures
            r@ == match *self {
                TemplateCollectionKind::TopTal => tt.templates@,
                TemplateCollectionKind::GitHub => gh.root@,
                TemplateCollectionKind::GitHubCommunity => gh.community@,
                TemplateCollectionKind::GitHubGlobal => gh.global@,
            },
    {
        match self {
            TemplateCollectionKind::TopTal => tt.templates(),
            TemplateCollectionKind::GitHub => gh.root(),
            TemplateCollectionKind::GitHubCommunity => gh.community(),
            TemplateCollectionKind::GitHubGlobal => gh.global(),
        }
    }
}

/// A collection of ignore templates together with its kind.
#[derive(Debug)]
pub struct TemplateCollection {
    pub kind: TemplateCollectionKind,
    pub items: Vec<Template>,
}

impl TemplateCollection {
    /// Snapshots the named collection out of the given catalogs.
    pub fn new(kind: TemplateCollectionKind, gh: &GithubTemplates, tt: &TopTalTemplates) -> (r:
        Self)
        ensures
            r.kind == kind,
            r.items@ == match kind {
                TemplateCollectionKind::TopTal => tt.templates@,
                TemplateCollectionKind::GitHub => gh.root@,
                TemplateCollectionKind::GitHubCommunity => gh.community@,
                TemplateCollectionKind::GitHubGlobal => gh.global@,
            },
    {
        let items = kind.get(gh, tt);
        TemplateCollection { kind, items }
    }
}

} // verus!
