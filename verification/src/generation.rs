//! Generation: which entries of a template tree reach the new project, where
//! each of them goes, and what a copied file holds.
//!
//! Paths are relative to the root of the template, with `/` between their
//! components. The caller walks the template and hands the entries over as
//! plain values. Nothing here substitutes: where a name or a text has to be
//! substituted, the library says what is to be substituted into what, the
//! caller has it done, and the library takes the outcome from there.

use crate::definition::{first_match, Rule, RuleView, TemplateDef};
use crate::variables::{file_key, Binding, Variables};
use vstd::prelude::*;
use vstd::string::StrSliceExecFns;
use vstd::utf8::{decode_utf8, encode_utf8, valid_utf8};

verus! {

/// An entry of the template tree.
#[derive(Debug, Clone)]
pub struct Entry {
    pub path: String,
    pub is_dir: bool,
}

/// What a step does at its destination.
#[derive(Debug, Clone, Copy, PartialEq, Eq, Structural)]
pub enum StepKind {
    /// Creates a directory.
    Directory,
    /// Writes a file after substituting the variables into its text.
    Rendered,
    /// Writes a file with the bytes of its source.
    Verbatim,
}

/// A text and the variables that are to be substituted into it.
#[derive(Debug, Clone)]
pub struct Substitution {
    pub template: String,
    pub variables: Variables,
}

/// An entry of the template that is taken, before its place in the new
/// project is settled.
#[derive(Debug, Clone)]
pub struct Draft {
    /// The path of the entry in the template.
    pub source: String,
    pub kind: StepKind,
    /// What gives the entry its new name, where its rule renames.
    pub rename: Option<Substitution>,
}

/// One step of a generation: an entry of the template and the place it takes
/// in the new project.
#[derive(Debug, Clone)]
pub struct Step {
    /// The path of the entry in the template.
    pub source: String,
    /// The path of the entry in the new project.
    pub destination: String,
    pub kind: StepKind,
}

/// What a file of the new project is made from.
#[derive(Debug)]
pub enum Contents {
    /// The bytes of the file, as they are.
    Bytes(Vec<u8>),
    /// The text of the file, once this has been substituted.
    Substitute(Substitution),
}

/// The destination of a generation is there already.
#[derive(Debug, Clone, Copy, PartialEq, Eq, Structural)]
pub struct DestinationExists;

/// Why a generation stops.
#[derive(Debug)]
pub enum GenerationError {
    /// No rule answers to the path.
    NoRuleMatched { path: String },
    /// The substitution failed, in the entry's text or in the template of
    /// its new name.
    Render { path: String, cause: tera::Error },
    /// A file that is to be substituted is not UTF-8 text.
    InvalidUtf8 { path: String },
}

/// What an [`Entry`] holds, as a mathematical value.
pub struct EntryView {
    pub path: Seq<char>,
    pub is_dir: bool,
}

/// What a [`Substitution`] holds, as a mathematical value.
pub struct SubstitutionView {
    pub template: Seq<char>,
    pub variables: Map<Seq<char>, Binding>,
}

/// What a [`Draft`] holds, as a mathematical value.
pub struct DraftView {
    pub source: Seq<char>,
    pub kind: StepKind,
    pub rename: Option<SubstitutionView>,
}

/// What a [`Step`] holds, as a mathematical value.
pub struct StepView {
    pub source: Seq<char>,
    pub destination: Seq<char>,
    pub kind: StepKind,
}

/// What a [`Contents`] holds, as a mathematical value.
pub enum ContentsView {
    Bytes(Seq<u8>),
    Substitute(SubstitutionView),
}

/// The kind of a [`GenerationError`] and the path it names.
pub enum Failure {
    NoRuleMatched(Seq<char>),
    Render(Seq<char>),
    InvalidUtf8(Seq<char>),
}

impl View for Entry {
    type V = EntryView;

    open spec fn view(&self) -> EntryView {
        EntryView { path: self.path@, is_dir: self.is_dir }
    }
}

impl View for Substitution {
    type V = SubstitutionView;

    open spec fn view(&self) -> SubstitutionView {
        SubstitutionView { template: self.template@, variables: self.variables@ }
    }
}

impl View for Draft {
    type V = DraftView;

    open spec fn view(&self) -> DraftView {
        DraftView {
            source: self.source@,
            kind: self.kind,
            rename: match self.rename {
                Some(request) => Some(request@),
                None => None,
            },
        }
    }
}

impl View for Step {
    type V = StepView;

    open spec fn view(&self) -> StepView {
        StepView { source: self.source@, destination: self.destination@, kind: self.kind }
    }
}

impl View for Contents {
    type V = ContentsView;

    open spec fn view(&self) -> ContentsView {
        match self {
            Contents::Bytes(bytes) => ContentsView::Bytes(bytes@),
            Contents::Substitute(request) => ContentsView::Substitute(request@),
        }
    }
}

impl View for GenerationError {
    type V = Failure;

    open spec fn view(&self) -> Failure {
        match self {
            GenerationError::NoRuleMatched { path } => Failure::NoRuleMatched(path@),
            GenerationError::Render { path, .. } => Failure::Render(path@),
            GenerationError::InvalidUtf8 { path } => Failure::InvalidUtf8(path@),
        }
    }
}

/// The values of a list of entries.
pub open spec fn entries_view(entries: Seq<Entry>) -> Seq<EntryView> {
    entries.map_values(|entry: Entry| entry@)
}

/// The values of a list of drafts.
pub open spec fn drafts_view(drafts: Seq<Draft>) -> Seq<DraftView> {
    drafts.map_values(|draft: Draft| draft@)
}

/// Whether the rules leave `path` out: a rule decides on it, and says that
/// it is not copied.
pub open spec fn excluded(rules: Seq<RuleView>, path: Seq<char>) -> bool {
    match first_match(rules, path) {
        Some(i) => !rules[i].included,
        None => false,
    }
}

/// Whether `path` lies under the directory `directory`.
pub open spec fn is_under(path: Seq<char>, directory: Seq<char>) -> bool {
    &&& 0 < directory.len() < path.len()
    &&& path.take(directory.len() as int) == directory
    &&& path[directory.len() as int] == '/'
}

/// Whether the walk never comes to `path`: it lies under a directory that the
/// rules leave out.
pub open spec fn pruned(rules: Seq<RuleView>, path: Seq<char>) -> bool {
    exists|n: int| 0 < n < path.len() && path[n] == '/' && #[trigger] excluded(rules, path.take(n))
}

/// What the walk does with a path.
pub enum Visit {
    /// The path is left out, by its own rule or with a directory above it.
    Skipped,
    /// The walk comes to the path, and no rule answers to it.
    Unmatched,
    /// The path is taken, under the rule at this position.
    Taken(int),
}

/// What the walk does with `path`.
pub open spec fn visit(rules: Seq<RuleView>, path: Seq<char>) -> Visit {
    if pruned(rules, path) {
        Visit::Skipped
    } else {
        match first_match(rules, path) {
            None => Visit::Unmatched,
            Some(i) => if rules[i].included {
                Visit::Taken(i)
            } else {
                Visit::Skipped
            },
        }
    }
}

/// The kind of the step for an entry that is taken.
pub open spec fn kind_of(template: bool, is_dir: bool) -> StepKind {
    if is_dir {
        StepKind::Directory
    } else if template {
        StepKind::Rendered
    } else {
        StepKind::Verbatim
    }
}

/// What is substituted for the entry at `path`: `template`, with the
/// variables of the run and the entry's path under the name `file`.
pub open spec fn substitution_for(
    template: Seq<char>,
    bindings: Map<Seq<char>, Binding>,
    path: Seq<char>,
) -> SubstitutionView {
    SubstitutionView { template, variables: bindings.insert(file_key(), Binding::Text(path)) }
}

/// The draft for an entry that is taken under `rule`: it starts from the
/// entry, has the kind that the entry and the rule call for, and is renamed
/// by the rule's `rename` template, if the rule has one.
pub open spec fn draft_of(
    rule: RuleView,
    bindings: Map<Seq<char>, Binding>,
    entry: EntryView,
) -> DraftView {
    DraftView {
        source: entry.path,
        kind: kind_of(rule.template, entry.is_dir),
        rename: match rule.rename {
            Some(template) => Some(substitution_for(template, bindings, entry.path)),
            None => None,
        },
    }
}

/// What planning `entry` comes to: nothing where the entry is left out, a
/// failure where the walk comes to it and no rule answers, else its draft.
pub open spec fn planned(
    rules: Seq<RuleView>,
    bindings: Map<Seq<char>, Binding>,
    entry: EntryView,
) -> Result<Option<DraftView>, Failure> {
    match visit(rules, entry.path) {
        Visit::Skipped => Ok(None),
        Visit::Unmatched => Err(Failure::NoRuleMatched(entry.path)),
        Visit::Taken(i) => Ok(Some(draft_of(rules[i], bindings, entry))),
    }
}

/// The drafts for the first `n` entries of `listing`: one for each entry that
/// is taken, in the order of the listing. The first entry without a rule
/// decides the failure.
pub open spec fn generated_through(
    rules: Seq<RuleView>,
    bindings: Map<Seq<char>, Binding>,
    listing: Seq<EntryView>,
    n: int,
) -> Result<Seq<DraftView>, Failure>
    decreases n,
{
    if n <= 0 {
        Ok(Seq::empty())
    } else {
        match generated_through(rules, bindings, listing, n - 1) {
            Err(failure) => Err(failure),
            Ok(drafts) => match planned(rules, bindings, listing[n - 1]) {
                Err(failure) => Err(failure),
                Ok(None) => Ok(drafts),
                Ok(Some(draft)) => Ok(drafts.push(draft)),
            },
        }
    }
}

/// A failure among the first entries stays the failure of the whole listing.
proof fn lemma_failure_stays(
    rules: Seq<RuleView>,
    bindings: Map<Seq<char>, Binding>,
    listing: Seq<EntryView>,
    n: int,
    m: int,
)
    requires
        0 <= n <= m,
        generated_through(rules, bindings, listing, n) is Err,
    ensures
        generated_through(rules, bindings, listing, m) == generated_through(
            rules,
            bindings,
            listing,
            n,
        ),
    decreases m - n,
{
    if n < m {
        lemma_failure_stays(rules, bindings, listing, n, m - 1);
    }
}

/// Directory pruning: a path under a directory that the rules leave out is
/// skipped, whatever rule would answer to the path itself.
pub proof fn lemma_excluded_directory_is_pruned(
    rules: Seq<RuleView>,
    directory: Seq<char>,
    path: Seq<char>,
)
    requires
        excluded(rules, directory),
        is_under(path, directory),
    ensures
        visit(rules, path) == Visit::Skipped,
{
}

/// Directory pruning, for a whole listing: no draft starts from a path under
/// a directory that the rules leave out.
pub proof fn lemma_no_draft_under_excluded_directory(
    rules: Seq<RuleView>,
    bindings: Map<Seq<char>, Binding>,
    listing: Seq<EntryView>,
    n: int,
    directory: Seq<char>,
)
    requires
        generated_through(rules, bindings, listing, n) is Ok,
        excluded(rules, directory),
    ensures
        forall|k: int|
            0 <= k < generated_through(rules, bindings, listing, n)->Ok_0.len() ==> !is_under(
                #[trigger] generated_through(rules, bindings, listing, n)->Ok_0[k].source,
                directory,
            ),
    decreases n,
{
    if n > 0 {
        lemma_no_draft_under_excluded_directory(rules, bindings, listing, n - 1, directory);
        if is_under(listing[n - 1].path, directory) {
            lemma_excluded_directory_is_pruned(rules, directory, listing[n - 1].path);
        }
    }
}

/// Calls `String::from_utf8`.
///
/// Trusted: the bytes are accepted exactly where they are well-formed UTF-8,
/// and the string then holds the text that they encode.
#[verifier::external_body]
fn text_from_utf8(bytes: Vec<u8>) -> (text: Option<String>)
    ensures
        text is Some <==> valid_utf8(bytes@),
        text matches Some(decoded) ==> decoded@ == decode_utf8(bytes@),
{
    String::from_utf8(bytes).ok()
}

/// Whether a generation may start: it never writes into a destination that is
/// there already.
pub fn admit_destination(exists: bool) -> (admitted: Result<(), DestinationExists>)
    ensures
        admitted is Err <==> exists,
{
    if exists {
        Err(DestinationExists)
    } else {
        Ok(())
    }
}

/// The step for a draft, given what the substitution made of its `rename`
/// request, or nothing for a draft that keeps its name: the entry keeps its
/// path, or goes under the new name, or the substitution's failure is
/// reported under the entry's path.
pub fn step_for(draft: &Draft, renamed: Option<Result<String, tera::Error>>) -> (outcome: Result<
    Step,
    GenerationError,
>)
    ensures
        match renamed {
            None => outcome matches Ok(step) && step@ == (StepView {
                source: draft.source@,
                destination: draft.source@,
                kind: draft.kind,
            }),
            Some(Ok(name)) => outcome matches Ok(step) && step@ == (StepView {
                source: draft.source@,
                destination: name@,
                kind: draft.kind,
            }),
            Some(Err(cause)) => outcome matches Err(
                GenerationError::Render { path: named, cause: kept },
            ) && named@ == draft.source@ && kept == cause,
        },
{
    let destination = match renamed {
        None => draft.source.clone(),
        Some(Ok(name)) => name,
        Some(Err(cause)) => {
            return Err(GenerationError::Render { path: draft.source.clone(), cause });
        },
    };
    Ok(Step { source: draft.source.clone(), destination, kind: draft.kind })
}

/// The bytes of a substituted file, given what the substitution made of its
/// text: the text as UTF-8, or the substitution's failure under the file's
/// path.
pub fn rendered_contents(path: &str, rendered: Result<String, tera::Error>) -> (output: Result<
    Vec<u8>,
    GenerationError,
>)
    ensures
        match rendered {
            Ok(text) => output matches Ok(bytes) && bytes@ == encode_utf8(text@),
            Err(cause) => output matches Err(GenerationError::Render { path: named, cause: kept })
                && named@ == path@ && kept == cause,
        },
{
    match rendered {
        Ok(text) => Ok(text.as_str().as_bytes_vec()),
        Err(cause) => Err(GenerationError::Render { path: path.to_owned(), cause }),
    }
}

impl TemplateDef {
    /// Whether the rules leave `path` out: a rule decides on it, and says
    /// that it is not copied. A walk of the template does not go into a
    /// directory of which this holds.
    pub fn excludes(&self, path: &str) -> (left_out: bool)
        ensures
            left_out == excluded(self@.rules, path@),
    {
        match self.find_for_str(path) {
            Some(rule) => !rule.included,
            None => false,
        }
    }

    /// Whether `path` lies under a directory that the rules leave out.
    pub fn prunes(&self, path: &str) -> (cut: bool)
        ensures
            cut == pruned(self@.rules, path@),
    {
        let length = path.unicode_len();
        let mut n: usize = 1;
        while n < length
            invariant
                1 <= n,
                length == path@.len(),
                forall|m: int|
                    0 < m < n && m < length && path@[m] == '/' ==> !#[trigger] excluded(
                        self@.rules,
                        path@.take(m),
                    ),
            decreases length - n,
        {
            if path.get_char(n) == '/' {
                let above = path.substring_char(0, n);
                if self.excludes(above) {
                    return true;
                }
            }
            n += 1;
        }
        false
    }
}

/// The outcome of planning, as a mathematical value.
pub open spec fn outcome_view(outcome: Result<Option<Draft>, GenerationError>) -> Result<
    Option<DraftView>,
    Failure,
> {
    match outcome {
        Ok(Some(draft)) => Ok(Some(draft@)),
        Ok(None) => Ok(None),
        Err(error) => Err(error@),
    }
}

/// Plans one entry of the template: nothing where the entry is left out, by
/// its own rule or with a directory above it; a failure where no rule answers
/// to it; else its draft. Where the rule renames, the draft says what gives
/// the new name: the rule's `rename` template, with these variables and the
/// entry's path as `file`.
pub fn plan_entry(definition: &TemplateDef, variables: &Variables, entry: &Entry) -> (outcome:
    Result<Option<Draft>, GenerationError>)
    ensures
        outcome_view(outcome) == planned(definition@.rules, variables@, entry@),
{
    let path = entry.path.as_str();
    if definition.prunes(path) {
        return Ok(None);
    }
    let rule: &Rule = match definition.find_for_str(path) {
        None => {
            return Err(GenerationError::NoRuleMatched { path: path.to_owned() });
        },
        Some(rule) => rule,
    };
    if !rule.included {
        return Ok(None);
    }
    let rename = match &rule.rename {
        None => None,
        Some(template) => Some(
            Substitution { template: template.clone(), variables: variables.with_file(path) },
        ),
    };
    let kind = if entry.is_dir {
        StepKind::Directory
    } else if rule.template {
        StepKind::Rendered
    } else {
        StepKind::Verbatim
    };
    Ok(Some(Draft { source: path.to_owned(), kind, rename }))
}

/// Generates a project from the listing of a template, as the drafts of its
/// entries: one for each entry that is taken, in the order of the listing.
/// Fails at the first entry to which the walk comes and no rule answers.
pub fn generate(definition: &TemplateDef, variables: &Variables, listing: &Vec<Entry>) -> (generated:
    Result<Vec<Draft>, GenerationError>)
    ensures
        match generated_through(
            definition@.rules,
            variables@,
            entries_view(listing@),
            listing.len() as int,
        ) {
            Ok(drafts) => generated is Ok && drafts_view(generated->Ok_0@) == drafts,
            Err(failure) => generated is Err && generated->Err_0@ == failure,
        },
{
    let ghost rules = definition@.rules;
    let ghost all = entries_view(listing@);
    let mut drafts: Vec<Draft> = Vec::new();
    let mut k: usize = 0;
    assert(drafts_view(drafts@) =~= Seq::<DraftView>::empty());
    while k < listing.len()
        invariant
            k <= listing.len(),
            rules == definition@.rules,
            all == entries_view(listing@),
            generated_through(rules, variables@, all, k as int) == Ok::<Seq<DraftView>, Failure>(
                drafts_view(drafts@),
            ),
        decreases listing.len() - k,
    {
        let ghost before = drafts_view(drafts@);
        match plan_entry(definition, variables, &listing[k]) {
            Err(error) => {
                proof {
                    lemma_failure_stays(rules, variables@, all, k + 1, listing.len() as int);
                }
                return Err(error);
            },
            Ok(None) => {},
            Ok(Some(draft)) => {
                let ghost value = draft@;
                drafts.push(draft);
                assert(drafts_view(drafts@) =~= before.push(value));
            },
        }
        k += 1;
    }
    Ok(drafts)
}

/// What a file of the new project is made from, given the bytes of its
/// source. A file that is not substituted keeps its bytes. One that is has
/// to be UTF-8 text, and is made by substituting these variables, and the
/// file's path as `file`, into that text.
pub fn file_contents(variables: &Variables, path: &str, template: bool, input: Vec<u8>) -> (output:
    Result<Contents, GenerationError>)
    ensures
        !template ==> (output matches Ok(Contents::Bytes(bytes)) && bytes == input),
        template && !valid_utf8(input@) ==> output is Err && output->Err_0@
            == Failure::InvalidUtf8(path@),
        template && valid_utf8(input@) ==> (output matches Ok(Contents::Substitute(request))
            && request@ == substitution_for(decode_utf8(input@), variables@, path@)),
{
    if !template {
        return Ok(Contents::Bytes(input));
    }
    match text_from_utf8(input) {
        None => Err(GenerationError::InvalidUtf8 { path: path.to_owned() }),
        Some(text) => Ok(
            Contents::Substitute(
                Substitution { template: text, variables: variables.with_file(path) },
            ),
        ),
    }
}

} // verus!
