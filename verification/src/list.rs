//! An ordered list of templates and the merged document it produces: one
//! banner-wrapped section per template, cross-template line dedup for lists
//! of more than one, and the canonical command line reproducing the list.

use vstd::prelude::*;
use crate::strutil::{join_str, join_with, trim_duplicate_lines, trim_duplicate_lines_spec,
    trim_spec, trim_str};
use crate::template::{content_spec, name_spec, prefix_of_kind, ProviderKind, Template,
    TemplateError};
use crate::collection::clone_templates;

verus! {

/// A list of ignore templates; duplicates permitted, order is output order.
#[derive(Debug)]
pub struct TemplateList {
    pub items: Vec<Template>,
}

impl Clone for TemplateList {
    /// Clones hold an element-for-element equal list.
    fn clone(&self) -> (r: Self)
        ensures
            r.items@ == self.items@,
    {
        TemplateList { items: clone_templates(&self.items) }
    }
}

/// One banner-wrapped section per template, each over its given body.
pub open spec fn sections_spec(
    tviews: Seq<(Seq<char>, (ProviderKind, Seq<char>))>,
    bodies: Seq<Seq<char>>,
) -> Seq<Seq<char>> {
    Seq::new(tviews.len(), |i: int| content_spec(tviews[i].1, bodies[i]))
}

/// The merged output document: for a single template its section verbatim,
/// with no dedup pass; for any other count the bodies are first deduped
/// across the whole list and the sections joined by one blank line.
pub open spec fn merged_content_spec(
    tviews: Seq<(Seq<char>, (ProviderKind, Seq<char>))>,
    bodies: Seq<Seq<char>>,
) -> Seq<char> {
    if tviews.len() == 1 {
        content_spec(tviews[0].1, bodies[0])
    } else {
        join_with(sections_spec(tviews, trim_duplicate_lines_spec(bodies)), "\n\n"@)
    }
}

/// The preview document: a single template's raw body verbatim; otherwise
/// the sections over the raw bodies, joined by one blank line, with no dedup.
pub open spec fn preview_spec(
    tviews: Seq<(Seq<char>, (ProviderKind, Seq<char>))>,
    bodies: Seq<Seq<char>>,
) -> Seq<char> {
    if tviews.len() == 1 {
        bodies[0]
    } else {
        join_with(sections_spec(tviews, bodies), "\n\n"@)
    }
}

/// The prefixed argument reproducing each template.
pub open spec fn command_parts_spec(tviews: Seq<(Seq<char>, (ProviderKind, Seq<char>))>) -> Seq<
    Seq<char>,
> {
    Seq::new(tviews.len(), |i: int| prefix_of_kind(tviews[i].1.0) + name_spec(tviews[i].1))
}

/// The canonical invocation reproducing the list.
pub open spec fn command_spec(tviews: Seq<(Seq<char>, (ProviderKind, Seq<char>))>) -> Seq<char> {
    trim_spec("gitnr create "@ + join_with(command_parts_spec(tviews), " "@))
}

/// An element-for-element copy of a string list.
fn clone_strings(src: &Vec<String>) -> (r: Vec<String>)
    ensures
        r@ == src@,
{
    let mut out: Vec<String> = Vec::new();
    let mut i: usize = 0;
    while i < src.len()
        invariant
            i <= src.len(),
            out@ == src@.take(i as int),
        decreases src.len() - i,
    {
        out.push(src[i].clone());
        proof {
            assert(out@ =~= src@.take(i + 1 as int));
        }
        i += 1;
    }
    proof {
        assert(src@.take(src.len() as int) =~= src@);
    }
    out
}

impl TemplateList {
    /// Wraps the given templates.
    pub fn new(templates: Vec<Template>) -> (r: Self)
        ensures
            r.items@ == templates@,
    {
        TemplateList { items: templates }
    }

    /// The number of templates in the list.
    pub fn count(&self) -> (r: usize)
        ensures
            r == self.items@.len(),
    {
        self.items.len()
    }

    /// The merged content of the list, one given body per template.
    pub fn content(&self, bodies: &Vec<String>) -> (r: Result<String, TemplateError>)
        requires
            bodies@.len() == self.items@.len(),
        ensures
            r is Ok,
            (r->Ok_0)@ == merged_content_spec(self.items.deep_view(), bodies.deep_view()),
    {
        let ghost tviews = self.items.deep_view();
        if self.count() == 1 {
            return self.items[0].content(bodies[0].as_str());
        }
        let deduped = trim_duplicate_lines(clone_strings(bodies));
        let ghost ddv = deduped.deep_view();
        proof {
            crate::strutil::lemma_dedup_bodies_len(bodies.deep_view(), Set::empty());
        }
        let mut sections: Vec<String> = Vec::new();
        let mut i: usize = 0;
        while i < self.items.len()
            invariant
                i <= self.items@.len(),
                tviews == self.items.deep_view(),
                ddv == deduped.deep_view(),
                ddv.len() == self.items@.len(),
                sections.deep_view() == sections_spec(tviews, ddv).take(i as int),
            decreases self.items@.len() - i,
        {
            let sec = match self.items[i].content(deduped[i].as_str()) {
                Ok(s) => s,
                Err(e) => {
                    return Err(e);
                },
            };
            let ghost sdv0 = sections.deep_view();
            sections.push(sec);
            proof {
                assert(tviews[i as int] == self.items@[i as int]@);
                assert(ddv[i as int] == deduped@[i as int]@);
                assert(sections.deep_view() =~= sdv0.push(sec@));
                assert(sdv0.push(sec@) =~= sections_spec(tviews, ddv).take(i + 1 as int));
            }
            i += 1;
        }
        proof {
            assert(sections_spec(tviews, ddv).take(self.items@.len() as int) =~= sections_spec(
                tviews,
                ddv,
            ));
        }
        Ok(join_str(&sections, "\n\n"))
    }

    /// The preview content of the list, one given body per template.
    pub fn content_preview(&self, bodies: &Vec<String>) -> (r: Result<String, TemplateError>)
        requires
            bodies@.len() == self.items@.len(),
        ensures
            r is Ok,
            (r->Ok_0)@ == preview_spec(self.items.deep_view(), bodies.deep_view()),
    {
        let ghost tviews = self.items.deep_view();
        let ghost bdv = bodies.deep_view();
        if self.count() == 1 {
            return Ok(bodies[0].clone());
        }
        let mut sections: Vec<String> = Vec::new();
        let mut i: usize = 0;
        while i < self.items.len()
            invariant
                i <= self.items@.len(),
                tviews == self.items.deep_view(),
                bdv == bodies.deep_view(),
                bdv.len() == self.items@.len(),
                sections.deep_view() == sections_spec(tviews, bdv).take(i as int),
            decreases self.items@.len() - i,
        {
            let sec = match self.items[i].content(bodies[i].as_str()) {
                Ok(s) => s,
                Err(e) => {
                    return Err(e);
                },
            };
            let ghost sdv0 = sections.deep_view();
            sections.push(sec);
            proof {
                assert(tviews[i as int] == self.items@[i as int]@);
                assert(bdv[i as int] == bodies@[i as int]@);
                assert(sections.deep_view() =~= sdv0.push(sec@));
                assert(sdv0.push(sec@) =~= sections_spec(tviews, bdv).take(i + 1 as int));
            }
            i += 1;
        }
        proof {
            assert(sections_spec(tviews, bdv).take(self.items@.len() as int) =~= sections_spec(
                tviews,
                bdv,
            ));
        }
        Ok(join_str(&sections, "\n\n"))
    }

    /// The command-line invocation that reproduces this list.
    pub fn command(&self) -> (r: Result<String, TemplateError>)
        ensures
            r is Ok,
            (r->Ok_0)@ == command_spec(self.items.deep_view()),
    {
        let ghost tviews = self.items.deep_view();
        let mut parts: Vec<String> = Vec::new();
        let mut i: usize = 0;
        while i < self.items.len()
            invariant
                i <= self.items@.len(),
                tviews == self.items.deep_view(),
                parts.deep_view() == command_parts_spec(tviews).take(i as int),
            decreases self.items@.len() - i,
        {
            let t = &self.items[i];
            let name = match t.value.name() {
                Ok(n) => n,
                Err(e) => {
                    return Err(e);
                },
            };
            let mut part = t.value.prefix().to_owned();
            part.append(name.as_str());
            let ghost pdv0 = parts.deep_view();
            parts.push(part);
            proof {
                assert(tviews[i as int] == self.items@[i as int]@);
                assert(parts.deep_view() =~= pdv0.push(part@));
                assert(pdv0.push(part@) =~= command_parts_spec(tviews).take(i + 1 as int));
            }
            i += 1;
        }
        proof {
            assert(command_parts_spec(tviews).take(self.items@.len() as int)
                =~= command_parts_spec(tviews));
        }
        let joined = join_str(&parts, " ");
        let mut cmd = "gitnr create ".to_owned();
        cmd.append(joined.as_str());
        Ok(trim_str(cmd.as_str()))
    }
}

} // verus!
