//! The command-line surface the program logic works with: the parsed
//! top-level options and the translation of template arguments into a
//! template list, splitting comma-separated arguments apart.

use vstd::prelude::*;
use crate::strutil::{split_char_exec, split_char_spec};
use crate::template::{resolve_kind, url_normal_form, ProviderKind, Template, TemplateError};
use crate::list::TemplateList;

verus! {

/// Options for generating a document from named templates.
#[derive(Debug)]
pub struct CommandCreate {
    /// Write the output to `.gitignore` in the current directory.
    pub out_gitignore: bool,
    /// Write the output to this file path.
    pub out_file: Option<String>,
    /// Space or comma separated template arguments, in output order.
    pub templates: Vec<String>,
}

/// The program's subcommands.
#[derive(Debug)]
pub enum Commands {
    /// Generate a document from one or more templates.
    Create(CommandCreate),
    /// Browse the collections interactively.
    Search,
}

/// The parsed command line.
#[derive(Debug)]
pub struct Cli {
    /// Force one revalidation per cached key during this run.
    pub refresh: bool,
    /// The selected subcommand.
    pub command: Option<Commands>,
}

/// Every comma-separated piece of every argument, in order.
pub open spec fn split_args(args: Seq<Seq<char>>) -> Seq<Seq<char>>
    decreases args.len(),
{
    if args.len() == 0 {
        Seq::empty()
    } else {
        split_args(args.drop_last()) + split_char_spec(args.last(), ',')
    }
}

/// The template view a given input string must resolve to: raw input kept,
/// provider chosen by the resolution rules for some state of the local disk.
pub open spec fn template_matches(
    tv: (Seq<char>, (ProviderKind, Seq<char>)),
    input: Seq<char>,
) -> bool {
    tv.0 == input && tv.1.1 == input && exists|pe: bool|
        tv.1.0 == #[trigger] resolve_kind(input, url_normal_form(input) is Some, pe)
}

/// Pointwise [`template_matches`] over a whole list.
pub open spec fn templates_match(
    tvs: Seq<(Seq<char>, (ProviderKind, Seq<char>))>,
    inputs: Seq<Seq<char>>,
) -> bool {
    tvs.len() == inputs.len() && forall|i: int|
        0 <= i < tvs.len() ==> template_matches(#[trigger] tvs[i], inputs[i])
}

impl Cli {
    /// The templates named by the command line: only the create command
    /// takes template arguments; each argument is split at commas and every
    /// piece resolved in order.
    pub fn templates(&self) -> (r: Result<TemplateList, TemplateError>)
        ensures
            self.command is None ==> r is Err && r->Err_0 == TemplateError::UnknownCommand,
            self.command is Some && !(self.command->0 is Create) ==> r is Err && r->Err_0
                == TemplateError::SearchCommandArgs,
            self.command is Some && self.command->0 is Create ==> r is Ok && templates_match(
                (r->Ok_0).items.deep_view(),
                split_args((self.command->0)->Create_0.templates.deep_view()),
            ),
    {
        let args: &CommandCreate = match &self.command {
            Some(Commands::Create(args)) => args,
            Some(Commands::Search) => {
                return Err(TemplateError::SearchCommandArgs);
            },
            None => {
                return Err(TemplateError::UnknownCommand);
            },
        };
        let ghost adv = args.templates.deep_view();
        let mut inputs: Vec<String> = Vec::new();
        let mut i: usize = 0;
        proof {
            assert(adv.take(0) =~= Seq::<Seq<char>>::empty());
            assert(inputs.deep_view() =~= split_args(adv.take(0)));
        }
        while i < args.templates.len()
            invariant
                i <= args.templates@.len(),
                adv == args.templates.deep_view(),
                inputs.deep_view() == split_args(adv.take(i as int)),
            decreases args.templates@.len() - i,
        {
            let pieces = split_char_exec(args.templates[i].as_str(), ',');
            let ghost pdv = pieces.deep_view();
            let mut j: usize = 0;
            while j < pieces.len()
                invariant
                    j <= pieces@.len(),
                    adv == args.templates.deep_view(),
                    pdv == pieces.deep_view(),
                    i < adv.len(),
                    inputs.deep_view() == split_args(adv.take(i as int)) + pdv.take(j as int),
                decreases pieces@.len() - j,
            {
                let ghost idv0 = inputs.deep_view();
                inputs.push(pieces[j].clone());
                proof {
                    assert(inputs.deep_view() =~= idv0.push(pdv[j as int]));
                    assert(inputs.deep_view() =~= split_args(adv.take(i as int)) + pdv.take(
                        j + 1 as int,
                    ));
                }
                j += 1;
            }
            proof {
                assert(adv.take(i + 1 as int).drop_last() =~= adv.take(i as int));
                assert(adv.take(i + 1 as int).last() == adv[i as int]);
                assert(pdv.take(pieces@.len() as int) =~= pdv);
                assert(pdv == split_char_spec(adv[i as int], ','));
                assert(inputs.deep_view() =~= split_args(adv.take(i + 1 as int)));
            }
            i += 1;
        }
        proof {
            assert(adv.take(args.templates@.len() as int) =~= adv);
        }
        let ghost all_inputs = split_args(adv);
        let mut templates: Vec<Template> = Vec::new();
        let mut k: usize = 0;
        while k < inputs.len()
            invariant
                k <= inputs@.len(),
                all_inputs == inputs.deep_view(),
                templates@.len() == k,
                forall|m: int|
                    0 <= m < k ==> template_matches((#[trigger] templates@[m])@, all_inputs[m]),
            decreases inputs@.len() - k,
        {
            let t = match Template::new(inputs[k].as_str()) {
                Ok(t) => t,
                Err(e) => {
                    return Err(e);
                },
            };
            templates.push(t);
            proof {
                assert(all_inputs[k as int] == inputs@[k as int]@);
                assert(template_matches(t@, all_inputs[k as int]));
            }
            k += 1;
        }
        let list = TemplateList::new(templates);
        proof {
            assert forall|m: int|
                0 <= m < list.items.deep_view().len() implies template_matches(
                #[trigger] list.items.deep_view()[m],
                all_inputs[m],
            ) by {
                assert(list.items.deep_view()[m] == (list.items@[m])@);
                assert(template_matches((list.items@[m])@, all_inputs[m]));
            }
        }
        Ok(list)
    }
}

} // verus!
