//! The interactive state machine: per-collection panes with wrapping
//! cursors, the insertion-ordered selection set with toggle semantics, the
//! preview view with its copy sub-states, and the keyboard/mouse dispatch
//! that drives them.

use vstd::prelude::*;
use crate::collection::{clone_templates, GithubTemplates, TemplateCollection,
    TemplateCollectionKind, TopTalTemplates, collection_kind_name};
use crate::list::{command_spec, merged_content_spec, TemplateList};
use crate::strutil::{contains_seq, contains_str, count_char, count_char_exec, dec_str, lower_seq,
    push_char, to_lowercase_ascii, usize_to_string};
use crate::template::{name_spec, ProviderKind, Template, TemplateError};

verus! {

// ---------------------------------------------------------------------------
// Collection panes
// ---------------------------------------------------------------------------

/// The data and cursor state of one collection pane.
#[derive(Debug)]
pub struct UICollection {
    /// The underlying template collection.
    pub collection: TemplateCollection,
    /// The highlighted row among `values`.
    pub cursor: usize,
    /// The rows on display, after any filter.
    pub values: Vec<Template>,
}

/// How far one navigation step moves: the requested increment (default one),
/// capped at the pane length.
pub open spec fn nav_step(inc: Option<usize>, len: int) -> int {
    let v: int = if inc is Some {
        inc->0 as int
    } else {
        1
    };
    if v > len {
        len
    } else {
        v
    }
}

/// Adds `delta` to `base` modulo `len`, for `0 <= base < len` and
/// `0 <= delta <= len`.
pub open spec fn wrap_index(base: int, delta: int, len: int) -> int {
    if base + delta < len {
        base + delta
    } else {
        base + delta - len
    }
}

/// Where the cursor lands after a forward step.
pub open spec fn next_cursor_spec(cursor: int, len: int, inc: Option<usize>) -> int {
    if len == 0 {
        cursor
    } else {
        wrap_index(cursor % len, nav_step(inc, len), len)
    }
}

/// Where the cursor lands after a backward step.
pub open spec fn prev_cursor_spec(cursor: int, len: int, inc: Option<usize>) -> int {
    if len == 0 {
        cursor
    } else {
        wrap_index(cursor % len, len - nav_step(inc, len), len)
    }
}

impl UICollection {
    /// A pane over the named collection, all rows shown, cursor on the
    /// first row.
    pub fn new(kind: TemplateCollectionKind, gh: &GithubTemplates, tt: &TopTalTemplates) -> (r:
        UICollection)
        ensures
            r.collection.kind == kind,
            r.collection.items@ == match kind {
                TemplateCollectionKind::TopTal => tt.templates@,
                TemplateCollectionKind::GitHub => gh.root@,
                TemplateCollectionKind::GitHubCommunity => gh.community@,
                TemplateCollectionKind::GitHubGlobal => gh.global@,
            },
            r.values@ == r.collection.items@,
            r.cursor == 0,
    {
        let collection = TemplateCollection::new(kind, gh, tt);
        let values = clone_templates(&collection.items);
        UICollection { collection, cursor: 0, values }
    }

    /// Moves the cursor forward, wrapping at the end of the pane.
    pub fn next(&mut self, inc: Option<usize>)
        ensures
            final(self).collection == old(self).collection,
            final(self).values == old(self).values,
            final(self).cursor == next_cursor_spec(
                old(self).cursor as int,
                old(self).values@.len() as int,
                inc,
            ),
            old(self).values@.len() > 0 ==> final(self).cursor < old(self).values@.len(),
    {
        let length = self.values.len();
        if length == 0 {
            return;
        }
        let step = match inc {
            Some(v) => if v > length {
                length
            } else {
                v
            },
            None => 1,
        };
        let base = self.cursor % length;
        let room = length - base;
        self.cursor = if step < room {
            base + step
        } else {
            step - room
        };
    }

    /// Moves the cursor backward, wrapping at the start of the pane.
    pub fn previous(&mut self, inc: Option<usize>)
        ensures
            final(self).collection == old(self).collection,
            final(self).values == old(self).values,
            final(self).cursor == prev_cursor_spec(
                old(self).cursor as int,
                old(self).values@.len() as int,
                inc,
            ),
            old(self).values@.len() > 0 ==> final(self).cursor < old(self).values@.len(),
    {
        let length = self.values.len();
        if length == 0 {
            return;
        }
        let step = match inc {
            Some(v) => if v > length {
                length
            } else {
                v
            },
            None => 1,
        };
        let delta = length - step;
        let base = self.cursor % length;
        let room = length - base;
        self.cursor = if delta < room {
            base + delta
        } else {
            delta - room
        };
    }
}

// ---------------------------------------------------------------------------
// The selection set
// ---------------------------------------------------------------------------

/// One selected row: the collection it came from and the template itself.
#[derive(Debug)]
pub struct UICollectionSelection {
    pub kind: TemplateCollectionKind,
    pub template: Template,
}

impl View for UICollectionSelection {
    type V = (TemplateCollectionKind, (Seq<char>, (ProviderKind, Seq<char>)));

    open spec fn view(&self) -> (TemplateCollectionKind, (Seq<char>, (ProviderKind, Seq<char>))) {
        (self.kind, self.template@)
    }
}

impl DeepView for UICollectionSelection {
    type V = (TemplateCollectionKind, (Seq<char>, (ProviderKind, Seq<char>)));

    open spec fn deep_view(&self) -> (
        TemplateCollectionKind,
        (Seq<char>, (ProviderKind, Seq<char>)),
    ) {
        self@
    }
}

impl Clone for UICollectionSelection {
    /// Clones are equal to the original.
    fn clone(&self) -> (r: Self)
        ensures
            r == *self,
    {
        UICollectionSelection { kind: self.kind, template: self.template.clone() }
    }
}

impl PartialEq for UICollectionSelection {
    /// Structural equality over the view.
    fn eq(&self, other: &Self) -> (r: bool) {
        self.kind == other.kind && self.template == other.template
    }
}

impl Eq for UICollectionSelection {

}

impl vstd::std_specs::cmp::PartialEqSpecImpl for UICollectionSelection {
    open spec fn obeys_eq_spec() -> bool {
        true
    }

    open spec fn eq_spec(&self, other: &UICollectionSelection) -> bool {
        self@ == other@
    }
}

/// Structural equality of two selections, stated over their views.
fn sel_eq(a: &UICollectionSelection, b: &UICollectionSelection) -> (r: bool)
    ensures
        r == (a@ == b@),
{
    a.kind == b.kind && a.template == b.template
}

/// Index of the first selection whose view equals `x`, or `-1`.
pub open spec fn find_sel(
    s: Seq<(TemplateCollectionKind, (Seq<char>, (ProviderKind, Seq<char>)))>,
    x: (TemplateCollectionKind, (Seq<char>, (ProviderKind, Seq<char>))),
) -> int
    decreases s.len(),
{
    if s.len() == 0 {
        -1
    } else if s[0] == x {
        0
    } else {
        let r = find_sel(s.drop_first(), x);
        if r < 0 {
            -1
        } else {
            r + 1
        }
    }
}

/// Toggle semantics over the selection views: a present pair is removed at
/// its first occurrence, an absent one is appended.
pub open spec fn toggle_spec(
    s: Seq<(TemplateCollectionKind, (Seq<char>, (ProviderKind, Seq<char>)))>,
    x: (TemplateCollectionKind, (Seq<char>, (ProviderKind, Seq<char>))),
) -> Seq<(TemplateCollectionKind, (Seq<char>, (ProviderKind, Seq<char>)))> {
    let i = find_sel(s, x);
    if i < 0 {
        s.push(x)
    } else {
        s.remove(i)
    }
}

/// [`find_sel`] finds exactly the first index with a matching view.
pub proof fn lemma_find_sel_at(
    s: Seq<(TemplateCollectionKind, (Seq<char>, (ProviderKind, Seq<char>)))>,
    x: (TemplateCollectionKind, (Seq<char>, (ProviderKind, Seq<char>))),
    i: int,
)
    requires
        0 <= i < s.len(),
        s[i] == x,
        forall|m: int| 0 <= m < i ==> s[m] != x,
    ensures
        find_sel(s, x) == i,
    decreases i,
{
    if i > 0 {
        assert(forall|m: int| 0 <= m < i - 1 ==> s.drop_first()[m] == s[m + 1]);
        lemma_find_sel_at(s.drop_first(), x, i - 1);
    }
}

/// [`find_sel`] reports absence exactly when no view matches.
pub proof fn lemma_find_sel_none(
    s: Seq<(TemplateCollectionKind, (Seq<char>, (ProviderKind, Seq<char>)))>,
    x: (TemplateCollectionKind, (Seq<char>, (ProviderKind, Seq<char>))),
)
    requires
        forall|m: int| 0 <= m < s.len() ==> s[m] != x,
    ensures
        find_sel(s, x) == -1,
    decreases s.len(),
{
    if s.len() > 0 {
        assert(forall|m: int| 0 <= m < s.drop_first().len() ==> s.drop_first()[m] == s[m + 1]);
        lemma_find_sel_none(s.drop_first(), x);
    }
}

// ---------------------------------------------------------------------------
// The preview view
// ---------------------------------------------------------------------------

/// The sub-state of the preview view: idle, or showing one of the two
/// copy-success banners.
#[derive(Debug, Clone, Copy, PartialEq, Eq, Structural)]
pub enum UIStatePreviewState {
    Default,
    /// The preview content was just copied to the clipboard.
    CopiedContent,
    /// The reconstructed command was just copied to the clipboard.
    CopiedCommand,
}

/// The preview title: the single template's name, or the selection count.
pub open spec fn preview_title_spec(
    tviews: Seq<(Seq<char>, (ProviderKind, Seq<char>))>,
) -> Seq<char> {
    if tviews.len() == 1 {
        " Preview: "@ + name_spec(tviews[0].1) + " "@
    } else {
        " Preview: Selected ("@ + dec_str(tviews.len() as int) + ") "@
    }
}

/// The rendered line count: newline count plus one, saturated to `u16`.
pub open spec fn content_lines_spec(content: Seq<char>) -> u16 {
    let c = count_char(content, '\n') + 1;
    if c > 0xffff {
        0xffff as u16
    } else {
        c as u16
    }
}

/// State of the preview view.
#[derive(Debug)]
pub struct UIStatePreview {
    /// The current sub-state.
    pub state: UIStatePreviewState,
    /// The current vertical scroll position.
    pub scroll_pos: u16,
    /// The templates being previewed.
    pub templates: TemplateList,
    /// Title of the preview view.
    pub title: String,
    /// The display content.
    pub content: String,
    /// The number of lines in the display content.
    pub content_lines: u16,
    /// The command reproducing the preview content.
    pub command: String,
}

impl UIStatePreview {
    /// Builds the preview for a template list, given one fetched body per
    /// template: merged content, reconstructed command, title, cursor at the
    /// top, idle sub-state.
    pub fn new(templates: TemplateList, bodies: &Vec<String>) -> (r: Result<
        UIStatePreview,
        TemplateError,
    >)
        requires
            bodies@.len() == templates.items@.len(),
        ensures
            r is Ok,
            (r->Ok_0).state is Default,
            (r->Ok_0).scroll_pos == 0,
            (r->Ok_0).templates.items@ == templates.items@,
            (r->Ok_0).content@ == merged_content_spec(
                templates.items.deep_view(),
                bodies.deep_view(),
            ),
            (r->Ok_0).content_lines == content_lines_spec((r->Ok_0).content@),
            (r->Ok_0).command@ == command_spec(templates.items.deep_view()),
            (r->Ok_0).title@ == preview_title_spec(templates.items.deep_view()),
    {
        let content = match templates.content(bodies) {
            Ok(c) => c,
            Err(e) => {
                return Err(e);
            },
        };
        let nl = count_char_exec(content.as_str(), '\n');
        let content_lines: u16 = if nl >= 0xffff {
            0xffff
        } else {
            (nl + 1) as u16
        };
        let command = match templates.command() {
            Ok(c) => c,
            Err(e) => {
                return Err(e);
            },
        };
        let title: String = if templates.count() == 1 {
            let name = match templates.items[0].value.name() {
                Ok(n) => n,
                Err(e) => {
                    return Err(e);
                },
            };
            let mut t = " Preview: ".to_owned();
            t.append(name.as_str());
            t.append(" ");
            proof {
                assert(templates.items.deep_view()[0] == templates.items@[0]@);
                assert(t@ =~= preview_title_spec(templates.items.deep_view()));
            }
            t
        } else {
            let n = usize_to_string(templates.count());
            let mut t = " Preview: Selected (".to_owned();
            t.append(n.as_str());
            t.append(") ");
            proof {
                assert(t@ =~= preview_title_spec(templates.items.deep_view()));
            }
            t
        };
        Ok(
            UIStatePreview {
                state: UIStatePreviewState::Default,
                scroll_pos: 0,
                templates,
                title,
                content,
                content_lines,
                command,
            },
        )
    }

    /// The largest reachable scroll position.
    pub open spec fn max_scroll(&self) -> int {
        if self.content_lines > 0 {
            self.content_lines - 1
        } else {
            0
        }
    }

    /// Everything but sub-state and scroll position is as in `other`.
    pub open spec fn same_payload(&self, other: &Self) -> bool {
        &&& self.templates == other.templates
        &&& self.title == other.title
        &&& self.content == other.content
        &&& self.content_lines == other.content_lines
        &&& self.command == other.command
    }

    /// Scrolls to the top of the preview content.
    pub fn scroll_to_top(&mut self)
        ensures
            final(self).same_payload(old(self)),
            final(self).state == old(self).state,
            final(self).scroll_pos == 0,
    {
        self.scroll_pos = 0;
    }

    /// Scrolls to the bottom of the preview content.
    pub fn scroll_to_bottom(&mut self)
        ensures
            final(self).same_payload(old(self)),
            final(self).state == old(self).state,
            final(self).scroll_pos == old(self).max_scroll(),
    {
        self.scroll_pos = if self.content_lines > 0 {
            self.content_lines - 1
        } else {
            0
        };
    }

    /// Scrolls the preview content up one line.
    pub fn scroll_up(&mut self)
        ensures
            final(self).same_payload(old(self)),
            final(self).state == old(self).state,
            final(self).scroll_pos == if old(self).scroll_pos > 0 {
                old(self).scroll_pos - 1
            } else {
                0
            },
    {
        self.scroll_pos = if self.scroll_pos > 0 {
            self.scroll_pos - 1
        } else {
            0
        };
    }

    /// Scrolls the preview content down one line, stopping at the bottom.
    pub fn scroll_down(&mut self)
        ensures
            final(self).same_payload(old(self)),
            final(self).state == old(self).state,
            final(self).scroll_pos == if old(self).scroll_pos + 1 > old(self).max_scroll() {
                old(self).max_scroll()
            } else {
                old(self).scroll_pos + 1
            },
    {
        let limit: u16 = if self.content_lines > 0 {
            self.content_lines - 1
        } else {
            0
        };
        self.scroll_pos = if self.scroll_pos >= limit {
            limit
        } else {
            self.scroll_pos + 1
        };
    }

    /// Records that the preview content was copied.
    pub fn copy_content(&mut self)
        ensures
            final(self).same_payload(old(self)),
            final(self).scroll_pos == old(self).scroll_pos,
            final(self).state is CopiedContent,
    {
        self.state = UIStatePreviewState::CopiedContent;
    }

    /// Records that the reconstructed command was copied.
    pub fn copy_command(&mut self)
        ensures
            final(self).same_payload(old(self)),
            final(self).scroll_pos == old(self).scroll_pos,
            final(self).state is CopiedCommand,
    {
        self.state = UIStatePreviewState::CopiedCommand;
    }

    /// Dismisses a copy-success banner.
    pub fn copy_done(&mut self)
        ensures
            final(self).same_payload(old(self)),
            final(self).scroll_pos == old(self).scroll_pos,
            final(self).state is Default,
    {
        self.state = UIStatePreviewState::Default;
    }
}

// ---------------------------------------------------------------------------
// The whole interactive state
// ---------------------------------------------------------------------------

/// The current view of the terminal interface.
#[derive(Debug)]
pub enum UIStateView {
    /// Browse, filter and select from the collections.
    Home,
    /// Inspect the output for a template list.
    Preview(UIStatePreview),
}

/// Application state.
#[derive(Debug)]
pub struct UIState {
    /// Whether the session keeps running.
    pub running: bool,
    /// The current view.
    pub view: UIStateView,
    /// The selected templates, in selection order.
    pub selected: Vec<UICollectionSelection>,
    /// Index of the active collection pane.
    pub collection_tab: usize,
    /// The filter text applied to the active pane.
    pub collection_filter: String,
    /// The four collection panes.
    pub collections: Vec<UICollection>,
    /// When the last mouse scroll was accepted, in milliseconds.
    pub last_scroll_time: u64,
}

/// A template's name matches the filter when the lower-cased filter text
/// occurs in its lower-cased name.
pub open spec fn filter_matches(tv: (Seq<char>, (ProviderKind, Seq<char>)), f: Seq<char>) -> bool {
    contains_seq(lower_seq(name_spec(tv.1)), lower_seq(f))
}

/// The rows a pane shows for a given filter text.
pub open spec fn filtered_values(items: Seq<Template>, f: Seq<char>) -> Seq<Template> {
    if f.len() == 0 {
        items
    } else {
        items.filter(|t: Template| filter_matches(t@, f))
    }
}

impl UIState {
    /// Four panes, a cursor each, the tab on the first.
    pub open spec fn wf(&self) -> bool {
        self.collections@.len() == 4 && self.collection_tab < 4
    }

    /// The active pane.
    pub open spec fn cur(&self) -> UICollection {
        self.collections@[self.collection_tab as int]
    }

    /// A fresh session over the given catalogs: running, home view, nothing
    /// selected, empty filter, the four panes in tab order, every pane
    /// unfiltered with its cursor on the first row.
    pub fn new(gh: &GithubTemplates, tt: &TopTalTemplates, now_ms: u64) -> (r: UIState)
        ensures
            r.wf(),
            r.running,
            r.view is Home,
            r.selected@.len() == 0,
            r.collection_tab == 0,
            r.collection_filter@.len() == 0,
            r.last_scroll_time == now_ms,
            r.collections@[0].collection.kind == TemplateCollectionKind::TopTal,
            r.collections@[1].collection.kind == TemplateCollectionKind::GitHub,
            r.collections@[2].collection.kind == TemplateCollectionKind::GitHubGlobal,
            r.collections@[3].collection.kind == TemplateCollectionKind::GitHubCommunity,
            forall|j: int|
                0 <= j < 4 ==> (#[trigger] r.collections@[j]).cursor == 0 && r.collections@[
                j].values@ == r.collections@[j].collection.items@,
    {
        let mut collections: Vec<UICollection> = Vec::new();
        collections.push(UICollection::new(TemplateCollectionKind::TopTal, gh, tt));
        collections.push(UICollection::new(TemplateCollectionKind::GitHub, gh, tt));
        collections.push(UICollection::new(TemplateCollectionKind::GitHubGlobal, gh, tt));
        collections.push(UICollection::new(TemplateCollectionKind::GitHubCommunity, gh, tt));
        UIState {
            running: true,
            view: UIStateView::Home,
            selected: Vec::new(),
            collection_tab: 0,
            collection_filter: String::new(),
            collections,
            last_scroll_time: now_ms,
        }
    }

    /// Handles the periodic tick; the state does not change.
    pub fn tick(&self) {
    }

    /// Ends the session.
    pub fn quit(&mut self)
        ensures
            !final(self).running,
            final(self).view == old(self).view,
            final(self).selected == old(self).selected,
            final(self).collection_tab == old(self).collection_tab,
            final(self).collection_filter == old(self).collection_filter,
            final(self).collections == old(self).collections,
            final(self).last_scroll_time == old(self).last_scroll_time,
    {
        self.running = false;
    }

    /// The four pane titles, in tab order.
    pub fn collection_tab_titles(&self) -> (r: Vec<String>)
        requires
            self.wf(),
        ensures
            r.deep_view() == Seq::new(
                4,
                |j: int| collection_kind_name(self.collections@[j].collection.kind),
            ),
    {
        let mut out: Vec<String> = Vec::new();
        let mut j: usize = 0;
        while j < self.collections.len()
            invariant
                self.wf(),
                j <= 4,
                out.deep_view() == Seq::new(
                    j as nat,
                    |m: int| collection_kind_name(self.collections@[m].collection.kind),
                ),
            decreases self.collections@.len() - j,
        {
            let ghost dv0 = out.deep_view();
            out.push(self.collections[j].collection.kind.name().to_owned());
            proof {
                assert(out.deep_view() =~= dv0.push(collection_kind_name(
                    self.collections@[j as int].collection.kind,
                )));
                assert(out.deep_view() =~= Seq::new(
                    (j + 1) as nat,
                    |m: int| collection_kind_name(self.collections@[m].collection.kind),
                ));
            }
            j += 1;
        }
        out
    }

    /// Moves to the next collection tab on the right, wrapping.
    pub fn collection_next(&mut self)
        requires
            old(self).wf(),
        ensures
            final(self).wf(),
            final(self).collection_tab == (old(self).collection_tab + 1) % 4,
            final(self).running == old(self).running,
            final(self).view == old(self).view,
            final(self).selected == old(self).selected,
            final(self).collection_filter == old(self).collection_filter,
            final(self).collections == old(self).collections,
            final(self).last_scroll_time == old(self).last_scroll_time,
    {
        self.collection_tab = (self.collection_tab + 1) % self.collections.len();
    }

    /// Moves to the previous collection tab on the left, wrapping.
    pub fn collection_prev(&mut self)
        requires
            old(self).wf(),
        ensures
            final(self).wf(),
            final(self).collection_tab == (old(self).collection_tab + 3) % 4,
            final(self).running == old(self).running,
            final(self).view == old(self).view,
            final(self).selected == old(self).selected,
            final(self).collection_filter == old(self).collection_filter,
            final(self).collections == old(self).collections,
            final(self).last_scroll_time == old(self).last_scroll_time,
    {
        self.collection_tab = (self.collection_tab + self.collections.len() - 1)
            % self.collections.len();
    }

    /// The active collection pane.
    pub fn collection(&self) -> (r: &UICollection)
        requires
            self.wf(),
        ensures
            *r == self.cur(),
    {
        &self.collections[self.collection_tab]
    }

    /// Replaces the active pane, leaving the other panes in place.
    fn put_pane(&mut self, pane: UICollection)
        requires
            old(self).wf(),
        ensures
            final(self).wf(),
            final(self).collections@ == old(self).collections@.update(
                old(self).collection_tab as int,
                pane,
            ),
            final(self).running == old(self).running,
            final(self).view == old(self).view,
            final(self).selected == old(self).selected,
            final(self).collection_tab == old(self).collection_tab,
            final(self).collection_filter == old(self).collection_filter,
            final(self).last_scroll_time == old(self).last_scroll_time,
    {
        let tab = self.collection_tab;
        let ghost cols0 = self.collections@;
        let _old = self.collections.remove(tab);
        self.collections.insert(tab, pane);
        proof {
            assert(self.collections@ =~= cols0.update(tab as int, pane));
        }
    }

    /// Moves the cursor in the active pane forward.
    pub fn list_next(&mut self, inc: Option<usize>)
        requires
            old(self).wf(),
        ensures
            final(self).wf(),
            final(self).collections@ == old(self).collections@.update(
                old(self).collection_tab as int,
                UICollection {
                    cursor: next_cursor_spec(
                        old(self).cur().cursor as int,
                        old(self).cur().values@.len() as int,
                        inc,
                    ) as usize,
                    ..old(self).cur()
                },
            ),
            final(self).running == old(self).running,
            final(self).view == old(self).view,
            final(self).selected == old(self).selected,
            final(self).collection_tab == old(self).collection_tab,
            final(self).collection_filter == old(self).collection_filter,
            final(self).last_scroll_time == old(self).last_scroll_time,
    {
        let tab = self.collection_tab;
        let mut pane = self.collections.remove(tab);
        let ghost cols0 = old(self).collections@;
        pane.next(inc);
        self.collections.insert(tab, pane);
        proof {
            assert(self.collections@ =~= cols0.update(tab as int, pane));
        }
    }

    /// Moves the cursor in the active pane backward.
    pub fn list_previous(&mut self, inc: Option<usize>)
        requires
            old(self).wf(),
        ensures
            final(self).wf(),
            final(self).collections@ == old(self).collections@.update(
                old(self).collection_tab as int,
                UICollection {
                    cursor: prev_cursor_spec(
                        old(self).cur().cursor as int,
                        old(self).cur().values@.len() as int,
                        inc,
                    ) as usize,
                    ..old(self).cur()
                },
            ),
            final(self).running == old(self).running,
            final(self).view == old(self).view,
            final(self).selected == old(self).selected,
            final(self).collection_tab == old(self).collection_tab,
            final(self).collection_filter == old(self).collection_filter,
            final(self).last_scroll_time == old(self).last_scroll_time,
    {
        let tab = self.collection_tab;
        let mut pane = self.collections.remove(tab);
        let ghost cols0 = old(self).collections@;
        pane.previous(inc);
        self.collections.insert(tab, pane);
        proof {
            assert(self.collections@ =~= cols0.update(tab as int, pane));
        }
    }

    /// Puts the active pane's cursor on a fixed row.
    pub fn list_jump(&mut self, row: usize)
        requires
            old(self).wf(),
        ensures
            final(self).wf(),
            final(self).collections@ == old(self).collections@.update(
                old(self).collection_tab as int,
                UICollection { cursor: row, ..old(self).cur() },
            ),
            final(self).running == old(self).running,
            final(self).view == old(self).view,
            final(self).selected == old(self).selected,
            final(self).collection_tab == old(self).collection_tab,
            final(self).collection_filter == old(self).collection_filter,
            final(self).last_scroll_time == old(self).last_scroll_time,
    {
        let tab = self.collection_tab;
        let mut pane = self.collections.remove(tab);
        let ghost cols0 = old(self).collections@;
        pane.cursor = row;
        self.collections.insert(tab, pane);
        proof {
            assert(self.collections@ =~= cols0.update(tab as int, pane));
        }
    }

    /// Toggles the highlighted row of the active pane in the selection set;
    /// with the cursor out of range nothing changes.
    pub fn list_select(&mut self)
        requires
            old(self).wf(),
        ensures
            final(self).wf(),
            old(self).cur().cursor < old(self).cur().values@.len() ==> final(
                self
            ).selected.deep_view() == toggle_spec(
                old(self).selected.deep_view(),
                (
                    old(self).cur().collection.kind,
                    old(self).cur().values@[old(self).cur().cursor as int]@,
                ),
            ),
            old(self).cur().cursor >= old(self).cur().values@.len() ==> final(self).selected
                == old(self).selected,
            final(self).running == old(self).running,
            final(self).view == old(self).view,
            final(self).collection_tab == old(self).collection_tab,
            final(self).collection_filter == old(self).collection_filter,
            final(self).collections == old(self).collections,
            final(self).last_scroll_time == old(self).last_scroll_time,
    {
        let tab = self.collection_tab;
        let cursor = self.collections[tab].cursor;
        if cursor >= self.collections[tab].values.len() {
            return;
        }
        let sel = UICollectionSelection {
            kind: self.collections[tab].collection.kind,
            template: self.collections[tab].values[cursor].clone(),
        };
        let ghost sdv = self.selected.deep_view();
        let ghost xv = sel@;
        let mut i: usize = 0;
        while i < self.selected.len()
            invariant
                i <= self.selected@.len(),
                sdv == self.selected.deep_view(),
                sdv == old(self).selected.deep_view(),
                xv == sel@,
                xv == (
                    old(self).cur().collection.kind,
                    old(self).cur().values@[old(self).cur().cursor as int]@,
                ),
                old(self).cur().cursor < old(self).cur().values@.len(),
                old(self).wf(),
                self.running == old(self).running,
                self.view == old(self).view,
                self.collection_tab == old(self).collection_tab,
                self.collection_filter == old(self).collection_filter,
                self.collections == old(self).collections,
                self.last_scroll_time == old(self).last_scroll_time,
                forall|m: int| 0 <= m < i ==> sdv[m] != xv,
            decreases self.selected@.len() - i,
        {
            let hit = sel_eq(&self.selected[i], &sel);
            proof {
                assert(hit == (self.selected@[i as int]@ == sel@));
                assert(sdv[i as int] == self.selected@[i as int]@);
            }
            if hit {
                proof {
                    assert(sdv[i as int] == xv);
                    lemma_find_sel_at(sdv, xv, i as int);
                }
                let _removed = self.selected.remove(i);
                proof {
                    assert(self.selected.deep_view() =~= sdv.remove(i as int));
                }
                return;
            }
            i += 1;
        }
        proof {
            lemma_find_sel_none(sdv, xv);
        }
        self.selected.push(sel);
        proof {
            assert(self.selected.deep_view() =~= sdv.push(xv));
        }
    }

    /// Re-evaluates the filter against the active pane's full item list:
    /// with empty filter text every row shows; otherwise exactly the rows
    /// whose names contain the filter text case-insensitively, in their
    /// original order.
    pub fn list_filter_update(&mut self)
        requires
            old(self).wf(),
        ensures
            final(self).wf(),
            final(self).collections@.len() == 4,
            forall|j: int|
                0 <= j < 4 && j != old(self).collection_tab ==> final(self).collections@[j]
                    == old(self).collections@[j],
            final(self).cur().collection == old(self).cur().collection,
            final(self).cur().cursor == old(self).cur().cursor,
            final(self).cur().values@ == filtered_values(
                old(self).cur().collection.items@,
                old(self).collection_filter@,
            ),
            final(self).running == old(self).running,
            final(self).view == old(self).view,
            final(self).selected == old(self).selected,
            final(self).collection_tab == old(self).collection_tab,
            final(self).collection_filter == old(self).collection_filter,
            final(self).last_scroll_time == old(self).last_scroll_time,
    {
        let tab = self.collection_tab;
        let mut pane = self.collections.remove(tab);
        let ghost cols0 = old(self).collections@;
        let ghost f = self.collection_filter@;
        let ghost pred = |t: Template| filter_matches(t@, f);
        if self.collection_filter.as_str().is_empty() {
            pane.values = clone_templates(&pane.collection.items);
        } else {
            let needle = to_lowercase_ascii(self.collection_filter.as_str());
            let mut values: Vec<Template> = Vec::new();
            let mut i: usize = 0;
            proof {
                assert(pane.collection.items@.take(0) =~= Seq::<Template>::empty());
                assert(values@ =~= pane.collection.items@.take(0).filter(pred));
            }
            while i < pane.collection.items.len()
                invariant
                    i <= pane.collection.items@.len(),
                    needle@ == lower_seq(f),
                    pred == |t: Template| filter_matches(t@, f),
                    values@ == pane.collection.items@.take(i as int).filter(pred),
                decreases pane.collection.items@.len() - i,
            {
                let t = &pane.collection.items[i];
                let name = match t.value.name() {
                    Ok(n) => n,
                    Err(_) => {
                        proof {
                            assert(false);
                        }
                        unreached()
                    },
                };
                let lname = to_lowercase_ascii(name.as_str());
                let keep = contains_str(lname.as_str(), needle.as_str());
                proof {
                    assert(keep == filter_matches(pane.collection.items@[i as int]@, f));
                    assert(pane.collection.items@.take(i + 1 as int)
                        =~= pane.collection.items@.take(i as int).push(
                        pane.collection.items@[i as int],
                    ));
                    pane.collection.items@.take(i as int).lemma_filter_push(
                        pane.collection.items@[i as int],
                        pred,
                    );
                }
                if keep {
                    values.push(t.clone());
                }
                proof {
                    assert(values@ =~= pane.collection.items@.take(i + 1 as int).filter(pred));
                }
                i += 1;
            }
            proof {
                assert(pane.collection.items@.take(pane.collection.items@.len() as int)
                    =~= pane.collection.items@);
            }
            pane.values = values;
        }
        self.collections.insert(tab, pane);
        proof {
            assert(self.collections@ =~= cols0.update(tab as int, self.collections@[tab as int]));
        }
    }

    /// Whether a filter is active.
    pub fn list_is_filtering(&self) -> (r: bool)
        ensures
            r == (self.collection_filter@.len() > 0),
    {
        !self.collection_filter.as_str().is_empty()
    }
}

// ---------------------------------------------------------------------------
// Input events and dispatch
// ---------------------------------------------------------------------------

/// A keyboard key, as the state machine sees it.
#[derive(Debug, Clone, Copy, PartialEq, Eq, Structural)]
pub enum KeyCode {
    Char(char),
    Up,
    Down,
    Left,
    Right,
    Home,
    End,
    Enter,
    Esc,
    Backspace,
    Other,
}

/// One keyboard event. `shift` and `ctrl` mean that exactly that modifier
/// was held; `release` marks key-release reports, which are ignored.
#[derive(Debug, Clone, Copy)]
pub struct KeyInput {
    pub code: KeyCode,
    pub shift: bool,
    pub ctrl: bool,
    pub release: bool,
}

/// One mouse event.
#[derive(Debug, Clone, Copy, PartialEq, Eq, Structural)]
pub enum MouseKind {
    LeftDown,
    ScrollUp,
    ScrollDown,
    Other,
}

/// A mouse event with the modifiers that accelerate scrolling.
#[derive(Debug, Clone, Copy)]
pub struct MouseInput {
    pub kind: MouseKind,
    pub shift: bool,
    pub alt: bool,
}

/// Outside work the event loop must perform after a dispatch: nothing, build
/// and open a preview for the given templates, or copy text to the clipboard.
#[derive(Debug)]
pub enum UIAction {
    Idle,
    OpenPreview(TemplateList),
    Copy(String),
}

/// The key is the given letter, in either case.
pub open spec fn key_is(c: KeyCode, lo: char, up: char) -> bool {
    c == KeyCode::Char(lo) || c == KeyCode::Char(up)
}

/// All fields of the two states are equal.
pub open spec fn same_state(pre: UIState, post: UIState) -> bool {
    &&& post.running == pre.running
    &&& post.view == pre.view
    &&& post.selected == pre.selected
    &&& post.collection_tab == pre.collection_tab
    &&& post.collection_filter == pre.collection_filter
    &&& post.collections == pre.collections
    &&& post.last_scroll_time == pre.last_scroll_time
}

/// All fields except the view are equal.
pub open spec fn same_but_view(pre: UIState, post: UIState) -> bool {
    &&& post.running == pre.running
    &&& post.selected == pre.selected
    &&& post.collection_tab == pre.collection_tab
    &&& post.collection_filter == pre.collection_filter
    &&& post.collections == pre.collections
    &&& post.last_scroll_time == pre.last_scroll_time
}

/// The new pane holds the old pane's collection and cursor, with its rows
/// re-evaluated against the filter text `f`.
pub open spec fn pane_refiltered(oldp: UICollection, newp: UICollection, f: Seq<char>) -> bool {
    &&& newp.collection == oldp.collection
    &&& newp.cursor == oldp.cursor
    &&& newp.values@ == filtered_values(oldp.collection.items@, f)
}

/// Only the pane at index `t` may differ between the two pane lists.
pub open spec fn panes_same_except(
    pre_cols: Seq<UICollection>,
    post_cols: Seq<UICollection>,
    t: int,
) -> bool {
    post_cols.len() == pre_cols.len() && forall|j: int|
        0 <= j < pre_cols.len() && j != t ==> post_cols[j] == pre_cols[j]
}

/// A tab switch to `nt`: the new tab's pane is re-filtered, all else stays.
pub open spec fn tab_switched(pre: UIState, post: UIState, nt: int) -> bool {
    &&& post.collection_tab == nt
    &&& panes_same_except(pre.collections@, post.collections@, nt)
    &&& pane_refiltered(pre.collections@[nt], post.collections@[nt], pre.collection_filter@)
    &&& post.running == pre.running
    &&& post.view == pre.view
    &&& post.selected == pre.selected
    &&& post.collection_filter == pre.collection_filter
    &&& post.last_scroll_time == pre.last_scroll_time
}

/// The filter text became `newf` and the active pane was re-filtered with
/// it; everything else stays.
pub open spec fn filter_edited(pre: UIState, post: UIState, newf: Seq<char>) -> bool {
    &&& post.collection_filter@ == newf
    &&& post.collection_tab == pre.collection_tab
    &&& panes_same_except(pre.collections@, post.collections@, pre.collection_tab as int)
    &&& pane_refiltered(pre.cur(), post.cur(), newf)
    &&& post.running == pre.running
    &&& post.view == pre.view
    &&& post.selected == pre.selected
    &&& post.last_scroll_time == pre.last_scroll_time
}

/// The active pane's cursor moved to `c`; everything else stays.
pub open spec fn cursor_moved(pre: UIState, post: UIState, c: int) -> bool {
    &&& post.collections@ == pre.collections@.update(
        pre.collection_tab as int,
        UICollection { cursor: c as usize, ..pre.cur() },
    )
    &&& post.running == pre.running
    &&& post.view == pre.view
    &&& post.selected == pre.selected
    &&& post.collection_tab == pre.collection_tab
    &&& post.collection_filter == pre.collection_filter
    &&& post.last_scroll_time == pre.last_scroll_time
}

/// The highlighted entry was toggled in the selection set (a no-op for an
/// out-of-range cursor); everything else stays.
pub open spec fn selection_toggled(pre: UIState, post: UIState) -> bool {
    &&& if pre.cur().cursor < pre.cur().values@.len() {
        post.selected.deep_view() == toggle_spec(
            pre.selected.deep_view(),
            (pre.cur().collection.kind, pre.cur().values@[pre.cur().cursor as int]@),
        )
    } else {
        post.selected == pre.selected
    }
    &&& post.running == pre.running
    &&& post.view == pre.view
    &&& post.collection_tab == pre.collection_tab
    &&& post.collection_filter == pre.collection_filter
    &&& post.collections == pre.collections
    &&& post.last_scroll_time == pre.last_scroll_time
}

/// The preview is still shown with the same payload, its sub-state and
/// scroll position as given; everything else stays.
pub open spec fn preview_updated(
    pre: UIState,
    post: UIState,
    st: UIStatePreviewState,
    scroll: int,
) -> bool {
    &&& pre.view is Preview
    &&& post.view is Preview
    &&& (post.view->Preview_0).same_payload(&(pre.view->Preview_0))
    &&& post.view->Preview_0.state == st
    &&& post.view->Preview_0.scroll_pos == scroll
    &&& same_but_view(pre, post)
}

/// The templates of the current selection, in selection order.
pub open spec fn selected_templates(pre: UIState) -> Seq<(Seq<char>, (ProviderKind, Seq<char>))> {
    Seq::new(pre.selected.deep_view().len(), |i: int| pre.selected.deep_view()[i].1)
}

/// The whole keyboard dispatch relation: what the state becomes and which
/// outside action is requested, for every event in every state.
pub open spec fn key_transition(pre: UIState, post: UIState, e: KeyInput, r: UIAction) -> bool {
    if e.release {
        same_state(pre, post) && r is Idle
    } else if e.ctrl && key_is(e.code, 'c', 'C') {
        // quit
        &&& !post.running
        &&& post.view == pre.view
        &&& post.selected == pre.selected
        &&& post.collection_tab == pre.collection_tab
        &&& post.collection_filter == pre.collection_filter
        &&& post.collections == pre.collections
        &&& post.last_scroll_time == pre.last_scroll_time
        &&& r is Idle
    } else if pre.view is Home {
        if e.shift && key_is(e.code, 's', 'S') {
            same_state(pre, post) && r is OpenPreview && (r->OpenPreview_0).items.deep_view()
                == selected_templates(pre)
        } else if e.shift && key_is(e.code, 'c', 'C') {
            if pre.cur().cursor < pre.cur().values@.len() {
                same_state(pre, post) && r is OpenPreview && (r->OpenPreview_0).items.deep_view()
                    == seq![pre.cur().values@[pre.cur().cursor as int]@]
            } else {
                same_state(pre, post) && r is Idle
            }
        } else if e.code == KeyCode::Right {
            tab_switched(pre, post, (pre.collection_tab + 1) % 4) && r is Idle
        } else if e.code == KeyCode::Left {
            tab_switched(pre, post, (pre.collection_tab + 3) % 4) && r is Idle
        } else if e.code == KeyCode::Enter {
            selection_toggled(pre, post) && r is Idle
        } else if e.code == KeyCode::Up {
            cursor_moved(
                pre,
                post,
                prev_cursor_spec(
                    pre.cur().cursor as int,
                    pre.cur().values@.len() as int,
                    Some(if e.shift { 10 } else { 1 }),
                ),
            ) && r is Idle
        } else if e.code == KeyCode::Down {
            cursor_moved(
                pre,
                post,
                next_cursor_spec(
                    pre.cur().cursor as int,
                    pre.cur().values@.len() as int,
                    Some(if e.shift { 10 } else { 1 }),
                ),
            ) && r is Idle
        } else if e.code == KeyCode::Home {
            cursor_moved(pre, post, 0) && r is Idle
        } else if e.code == KeyCode::End {
            cursor_moved(
                pre,
                post,
                if pre.cur().values@.len() > 0 {
                    pre.cur().values@.len() - 1
                } else {
                    0
                },
            ) && r is Idle
        } else if e.code == KeyCode::Char(' ') {
            if pre.collection_filter@.len() > 0 {
                filter_edited(pre, post, pre.collection_filter@.push(' ')) && r is Idle
            } else {
                same_state(pre, post) && r is Idle
            }
        } else if e.code == KeyCode::Backspace {
            filter_edited(
                pre,
                post,
                if pre.collection_filter@.len() > 0 {
                    pre.collection_filter@.drop_last()
                } else {
                    pre.collection_filter@
                },
            ) && r is Idle
        } else if e.code is Char {
            filter_edited(pre, post, pre.collection_filter@.push(e.code->Char_0)) && r is Idle
        } else {
            same_state(pre, post) && r is Idle
        }
    } else {
        // preview view
        let p = pre.view->Preview_0;
        if e.shift && key_is(e.code, 'c', 'C') {
            preview_updated(pre, post, UIStatePreviewState::CopiedContent, p.scroll_pos as int)
                && r is Copy && (r->Copy_0)@ == p.content@
        } else if e.shift && key_is(e.code, 'x', 'X') {
            preview_updated(pre, post, UIStatePreviewState::CopiedCommand, p.scroll_pos as int)
                && r is Copy && (r->Copy_0)@ == p.command@
        } else if p.state is Default {
            if e.code == KeyCode::Esc {
                post.view is Home && same_but_view(pre, post) && r is Idle
            } else if e.code == KeyCode::Up {
                preview_updated(
                    pre,
                    post,
                    p.state,
                    if p.scroll_pos > 0 {
                        p.scroll_pos - 1
                    } else {
                        0
                    },
                ) && r is Idle
            } else if e.code == KeyCode::Down {
                preview_updated(
                    pre,
                    post,
                    p.state,
                    if p.scroll_pos + 1 > p.max_scroll() {
                        p.max_scroll()
                    } else {
                        p.scroll_pos + 1
                    },
                ) && r is Idle
            } else if e.code == KeyCode::Home {
                preview_updated(pre, post, p.state, 0) && r is Idle
            } else if e.code == KeyCode::End {
                preview_updated(pre, post, p.state, p.max_scroll()) && r is Idle
            } else {
                same_state(pre, post) && r is Idle
            }
        } else if p.state is CopiedContent {
            if key_is(e.code, 'c', 'C') {
                same_state(pre, post) && r is Idle
            } else {
                preview_updated(pre, post, UIStatePreviewState::Default, p.scroll_pos as int)
                    && r is Idle
            }
        } else {
            if key_is(e.code, 'x', 'X') {
                same_state(pre, post) && r is Idle
            } else {
                preview_updated(pre, post, UIStatePreviewState::Default, p.scroll_pos as int)
                    && r is Idle
            }
        }
    }
}

/// Handles one keyboard event against the state machine, returning the
/// outside work the event loop must perform.
pub fn handle_key_events(app: &mut UIState, event: KeyInput) -> (r: UIAction)
    requires
        old(app).wf(),
    ensures
        final(app).wf(),
        key_transition(*old(app), *final(app), event, r),
{
    if event.release {
        return UIAction::Idle;
    }
    let is_c = event.code == KeyCode::Char('c') || event.code == KeyCode::Char('C');
    let is_x = event.code == KeyCode::Char('x') || event.code == KeyCode::Char('X');
    let is_s = event.code == KeyCode::Char('s') || event.code == KeyCode::Char('S');
    if event.ctrl && is_c {
        app.quit();
        return UIAction::Idle;
    }
    let in_home = match &app.view {
        UIStateView::Home => true,
        UIStateView::Preview(_) => false,
    };
    if in_home {
        if event.shift && is_s {
            let mut ts: Vec<Template> = Vec::new();
            let mut i: usize = 0;
            proof {
                assert(ts.deep_view() =~= selected_templates(*old(app)).take(0));
            }
            while i < app.selected.len()
                invariant
                    i <= app.selected@.len(),
                    *app == *old(app),
                    ts.deep_view() == selected_templates(*old(app)).take(i as int),
                decreases app.selected@.len() - i,
            {
                let ghost tdv = ts.deep_view();
                ts.push(app.selected[i].template.clone());
                proof {
                    assert(app.selected.deep_view()[i as int] == app.selected@[i as int]@);
                    assert(ts.deep_view() =~= tdv.push(selected_templates(*old(app))[i as int]));
                    assert(ts.deep_view() =~= selected_templates(*old(app)).take(i + 1 as int));
                }
                i += 1;
            }
            proof {
                assert(selected_templates(*old(app)).take(app.selected@.len() as int)
                    =~= selected_templates(*old(app)));
            }
            return UIAction::OpenPreview(TemplateList::new(ts));
        }
        if event.shift && is_c {
            let tab = app.collection_tab;
            let cur = app.collections[tab].cursor;
            if cur < app.collections[tab].values.len() {
                let t = app.collections[tab].values[cur].clone();
                let mut ts: Vec<Template> = Vec::new();
                ts.push(t);
                proof {
                    assert(ts.deep_view() =~= seq![
                        old(app).cur().values@[old(app).cur().cursor as int]@
                    ]);
                }
                return UIAction::OpenPreview(TemplateList::new(ts));
            } else {
                return UIAction::Idle;
            }
        }
        if event.code == KeyCode::Right {
            app.collection_next();
            app.list_filter_update();
            return UIAction::Idle;
        }
        if event.code == KeyCode::Left {
            app.collection_prev();
            app.list_filter_update();
            return UIAction::Idle;
        }
        if event.code == KeyCode::Enter {
            app.list_select();
            return UIAction::Idle;
        }
        if event.code == KeyCode::Up {
            app.list_previous(Some(if event.shift { 10 } else { 1 }));
            return UIAction::Idle;
        }
        if event.code == KeyCode::Down {
            app.list_next(Some(if event.shift { 10 } else { 1 }));
            return UIAction::Idle;
        }
        if event.code == KeyCode::Home {
            app.list_jump(0);
            return UIAction::Idle;
        }
        if event.code == KeyCode::End {
            let len = app.collection().values.len();
            app.list_jump(if len > 0 {
                len - 1
            } else {
                0
            });
            return UIAction::Idle;
        }
        if event.code == KeyCode::Char(' ') {
            if !app.collection_filter.as_str().is_empty() {
                push_char(&mut app.collection_filter, ' ');
                app.list_filter_update();
            }
            return UIAction::Idle;
        }
        if event.code == KeyCode::Backspace {
            let n = app.collection_filter.as_str().unicode_len();
            if n > 0 {
                let shorter = crate::strutil::substr_copy(app.collection_filter.as_str(), 0, n - 1);
                proof {
                    assert(shorter@ =~= old(app).collection_filter@.drop_last());
                }
                app.collection_filter = shorter;
            }
            app.list_filter_update();
            return UIAction::Idle;
        }
        match event.code {
            KeyCode::Char(c) => {
                push_char(&mut app.collection_filter, c);
                app.list_filter_update();
                UIAction::Idle
            },
            _ => UIAction::Idle,
        }
    } else {
        let mut v = UIStateView::Home;
        core::mem::swap(&mut app.view, &mut v);
        let mut p = match v {
            UIStateView::Preview(p) => p,
            UIStateView::Home => {
                proof {
                    assert(false);
                }
                unreached()
            },
        };
        if event.shift && is_c {
            p.copy_content();
            let text = p.content.clone();
            app.view = UIStateView::Preview(p);
            return UIAction::Copy(text);
        }
        if event.shift && is_x {
            p.copy_command();
            let text = p.command.clone();
            app.view = UIStateView::Preview(p);
            return UIAction::Copy(text);
        }
        match p.state {
            UIStatePreviewState::Default => {
                match event.code {
                    KeyCode::Esc => {
                        // back to home; the preview is discarded
                        UIAction::Idle
                    },
                    KeyCode::Up => {
                        p.scroll_up();
                        app.view = UIStateView::Preview(p);
                        UIAction::Idle
                    },
                    KeyCode::Down => {
                        p.scroll_down();
                        app.view = UIStateView::Preview(p);
                        UIAction::Idle
                    },
                    KeyCode::Home => {
                        p.scroll_to_top();
                        app.view = UIStateView::Preview(p);
                        UIAction::Idle
                    },
                    KeyCode::End => {
                        p.scroll_to_bottom();
                        app.view = UIStateView::Preview(p);
                        UIAction::Idle
                    },
                    _ => {
                        app.view = UIStateView::Preview(p);
                        UIAction::Idle
                    },
                }
            },
            UIStatePreviewState::CopiedContent => {
                if !is_c {
                    p.copy_done();
                }
                app.view = UIStateView::Preview(p);
                UIAction::Idle
            },
            UIStatePreviewState::CopiedCommand => {
                if !is_x {
                    p.copy_done();
                }
                app.view = UIStateView::Preview(p);
                UIAction::Idle
            },
        }
    }
}

/// The active pane's cursor moved to `c` and the scroll debounce clock was
/// stamped with `now`; everything else stays.
pub open spec fn pane_scrolled(pre: UIState, post: UIState, c: int, now: u64) -> bool {
    &&& post.collections@ == pre.collections@.update(
        pre.collection_tab as int,
        UICollection { cursor: c as usize, ..pre.cur() },
    )
    &&& post.running == pre.running
    &&& post.view == pre.view
    &&& post.selected == pre.selected
    &&& post.collection_tab == pre.collection_tab
    &&& post.collection_filter == pre.collection_filter
    &&& post.last_scroll_time == now
}

/// The whole mouse dispatch relation: wheel events within 15 ms of the last
/// accepted scroll are dropped, a click toggles the highlighted row, and in
/// the preview the wheel scrolls or a click dismisses a copy banner.
pub open spec fn mouse_transition(pre: UIState, post: UIState, e: MouseInput, now: u64) -> bool {
    let step: usize = if e.shift || e.alt {
        10
    } else {
        1
    };
    if pre.view is Home {
        if e.kind == MouseKind::LeftDown {
            selection_toggled(pre, post)
        } else if e.kind == MouseKind::ScrollUp {
            if now > pre.last_scroll_time + 15 {
                pane_scrolled(
                    pre,
                    post,
                    prev_cursor_spec(
                        pre.cur().cursor as int,
                        pre.cur().values@.len() as int,
                        Some(step),
                    ),
                    now,
                )
            } else {
                same_state(pre, post)
            }
        } else if e.kind == MouseKind::ScrollDown {
            if now > pre.last_scroll_time + 15 {
                pane_scrolled(
                    pre,
                    post,
                    next_cursor_spec(
                        pre.cur().cursor as int,
                        pre.cur().values@.len() as int,
                        Some(step),
                    ),
                    now,
                )
            } else {
                same_state(pre, post)
            }
        } else {
            same_state(pre, post)
        }
    } else {
        let p = pre.view->Preview_0;
        if p.state is Default {
            if e.kind == MouseKind::ScrollUp {
                preview_updated(
                    pre,
                    post,
                    p.state,
                    if p.scroll_pos > 0 {
                        p.scroll_pos - 1
                    } else {
                        0
                    },
                )
            } else if e.kind == MouseKind::ScrollDown {
                preview_updated(
                    pre,
                    post,
                    p.state,
                    if p.scroll_pos + 1 > p.max_scroll() {
                        p.max_scroll()
                    } else {
                        p.scroll_pos + 1
                    },
                )
            } else {
                same_state(pre, post)
            }
        } else {
            if e.kind == MouseKind::LeftDown {
                preview_updated(pre, post, UIStatePreviewState::Default, p.scroll_pos as int)
            } else {
                same_state(pre, post)
            }
        }
    }
}

/// Handles one mouse event against the state machine. `now_ms` is the
/// caller's monotonic clock reading in milliseconds, used for the 15 ms
/// scroll debounce.
pub fn handle_mouse_events(app: &mut UIState, event: MouseInput, now_ms: u64)
    requires
        old(app).wf(),
    ensures
        final(app).wf(),
        mouse_transition(*old(app), *final(app), event, now_ms),
{
    let in_home = match &app.view {
        UIStateView::Home => true,
        UIStateView::Preview(_) => false,
    };
    let step: usize = if event.shift || event.alt {
        10
    } else {
        1
    };
    if in_home {
        match event.kind {
            MouseKind::LeftDown => {
                app.list_select();
            },
            MouseKind::ScrollUp => {
                if now_ms > app.last_scroll_time && now_ms - app.last_scroll_time > 15 {
                    app.list_previous(Some(step));
                    app.last_scroll_time = now_ms;
                }
            },
            MouseKind::ScrollDown => {
                if now_ms > app.last_scroll_time && now_ms - app.last_scroll_time > 15 {
                    app.list_next(Some(step));
                    app.last_scroll_time = now_ms;
                }
            },
            MouseKind::Other => {},
        }
    } else {
        let mut v = UIStateView::Home;
        core::mem::swap(&mut app.view, &mut v);
        let mut p = match v {
            UIStateView::Preview(p) => p,
            UIStateView::Home => {
                proof {
                    assert(false);
                }
                unreached()
            },
        };
        match p.state {
            UIStatePreviewState::Default => {
                match event.kind {
                    MouseKind::ScrollUp => {
                        p.scroll_up();
                    },
                    MouseKind::ScrollDown => {
                        p.scroll_down();
                    },
                    _ => {},
                }
            },
            _ => {
                if event.kind == MouseKind::LeftDown {
                    p.copy_done();
                }
            },
        }
        app.view = UIStateView::Preview(p);
    }
}

} // verus!
