//! Template definitions: the rules that classify the paths of a template, the
//! variables that a template declares, and the reading of both from a
//! configuration document.

use crate::document::{
    entry, find_entry, flag_of, items_view, lemma_table_view, list_of, pairs_view, read_yaml,
    table_of, text_of, yaml_document, Node, NodeView,
};
use crate::pattern::{catch_all, is_fallback_pattern, regex_matches, regex_valid, Pattern};
use vstd::prelude::*;

verus! {

/// One classification rule: the patterns it answers to, and what it says of
/// a path that one of them matches.
#[derive(Debug, Clone)]
pub struct Rule {
    /// The patterns, in the order of the configuration.
    pub sources: Vec<Pattern>,
    /// Whether a matched file goes through text substitution.
    pub template: bool,
    /// Whether a matched file or directory is copied at all.
    pub included: bool,
    /// The template of the output path, if the rule renames.
    pub rename: Option<String>,
}

/// What a [`Rule`] holds, as a mathematical value.
pub struct RuleView {
    pub sources: Seq<Seq<char>>,
    pub template: bool,
    pub included: bool,
    pub rename: Option<Seq<char>>,
}

/// A variable that a template declares.
#[derive(Debug, Clone)]
pub struct VariableDef {
    pub name: String,
    /// The value that the variable takes when nothing else gives it one.
    pub default: Option<String>,
}

/// What a [`VariableDef`] holds, as a mathematical value.
pub struct VariableView {
    pub name: Seq<char>,
    pub default: Option<Seq<char>>,
}

/// The rules and the variables of a template.
#[derive(Debug, Clone)]
pub struct TemplateDef {
    /// The rules in order of precedence: the first that matches a path
    /// decides.
    pub rules: Vec<Rule>,
    pub variables: Vec<VariableDef>,
}

/// What a [`TemplateDef`] holds, as a mathematical value.
pub struct DefinitionView {
    pub rules: Seq<RuleView>,
    pub variables: Seq<VariableView>,
}

/// The text of an optional string.
pub open spec fn optional_text(text: Option<String>) -> Option<Seq<char>> {
    match text {
        Some(text) => Some(text@),
        None => None,
    }
}

/// The texts of a list of patterns.
pub open spec fn patterns_view(patterns: Seq<Pattern>) -> Seq<Seq<char>> {
    patterns.map_values(|pattern: Pattern| pattern@)
}

/// The values of a list of rules.
pub open spec fn rules_view(rules: Seq<Rule>) -> Seq<RuleView> {
    rules.map_values(|rule: Rule| rule@)
}

/// The values of a list of variables.
pub open spec fn variables_view(variables: Seq<VariableDef>) -> Seq<VariableView> {
    variables.map_values(|variable: VariableDef| variable@)
}

impl View for Rule {
    type V = RuleView;

    open spec fn view(&self) -> RuleView {
        RuleView {
            sources: patterns_view(self.sources@),
            template: self.template,
            included: self.included,
            rename: optional_text(self.rename),
        }
    }
}

impl View for VariableDef {
    type V = VariableView;

    open spec fn view(&self) -> VariableView {
        VariableView { name: self.name@, default: optional_text(self.default) }
    }
}

impl View for TemplateDef {
    type V = DefinitionView;

    open spec fn view(&self) -> DefinitionView {
        DefinitionView {
            rules: rules_view(self.rules@),
            variables: variables_view(self.variables@),
        }
    }
}

/// Whether one of the patterns from position `from` on matches `path`.
pub open spec fn any_matches_from(sources: Seq<Seq<char>>, path: Seq<char>, from: int) -> bool
    decreases sources.len() - from,
{
    if from < 0 || from >= sources.len() {
        false
    } else {
        regex_matches(sources[from], path) || any_matches_from(sources, path, from + 1)
    }
}

/// Whether a rule answers to `path`: one of its patterns matches it.
pub open spec fn rule_matches(rule: RuleView, path: Seq<char>) -> bool {
    any_matches_from(rule.sources, path, 0)
}

/// The position of the first rule from position `from` on that answers to
/// `path`.
pub open spec fn first_match_from(rules: Seq<RuleView>, path: Seq<char>, from: int) -> Option<int>
    decreases rules.len() - from,
{
    if from < 0 || from >= rules.len() {
        None
    } else if rule_matches(rules[from], path) {
        Some(from)
    } else {
        first_match_from(rules, path, from + 1)
    }
}

/// The position of the rule that decides on `path`: the first that answers
/// to it.
pub open spec fn first_match(rules: Seq<RuleView>, path: Seq<char>) -> Option<int> {
    first_match_from(rules, path, 0)
}

/// The rule that decides is the first that answers: it answers to the path,
/// and no rule before it does. Where no rule decides, none answers.
pub proof fn lemma_first_match(rules: Seq<RuleView>, path: Seq<char>, from: int)
    requires
        0 <= from,
    ensures
        match first_match_from(rules, path, from) {
            Some(i) => from <= i < rules.len() && rule_matches(rules[i], path) && forall|j: int|
                from <= j < i ==> !rule_matches(#[trigger] rules[j], path),
            None => forall|j: int|
                from <= j < rules.len() ==> !rule_matches(#[trigger] rules[j], path),
        },
    decreases rules.len() - from,
{
    if from < rules.len() && !rule_matches(rules[from], path) {
        lemma_first_match(rules, path, from + 1);
    }
}

/// Whether one of the rules holds the pattern that catches every path.
pub open spec fn has_catch_all(rules: Seq<RuleView>) -> bool {
    exists|i: int, j: int|
        0 <= i < rules.len() && 0 <= j < rules[i].sources.len() && #[trigger] rules[i].sources[j]
            == catch_all()
}

/// The three rules that end every definition read from a configuration: the
/// configuration file `template.yml` and the directory `.git` with what is in
/// it are left out, and whatever no rule before has claimed is taken in and
/// substituted. The dots of the two names stand for themselves.
pub open spec fn fallback_rules() -> Seq<RuleView> {
    seq![
        RuleView {
            sources: seq!["^template\\.yml$"@],
            template: true,
            included: false,
            rename: None,
        },
        RuleView {
            sources: seq!["^\\.git/"@, "^\\.git$"@],
            template: true,
            included: false,
            rename: None,
        },
        RuleView { sources: seq![catch_all()], template: true, included: true, rename: None },
    ]
}

impl Rule {
    /// Whether the rule answers to `path`.
    pub fn matches(&self, path: &str) -> (found: bool)
        ensures
            found == rule_matches(self@, path@),
            (exists|j: int| 0 <= j < self@.sources.len() && self@.sources[j] == catch_all())
                ==> found,
    {
        let ghost sources = self@.sources;
        let mut j: usize = 0;
        while j < self.sources.len()
            invariant
                j <= self.sources.len(),
                sources == patterns_view(self.sources@),
                rule_matches(self@, path@) == any_matches_from(sources, path@, j as int),
                forall|k: int| 0 <= k < j ==> sources[k] != catch_all(),
            decreases self.sources.len() - j,
        {
            if self.sources[j].is_match(path) {
                return true;
            }
            j += 1;
        }
        false
    }
}

impl TemplateDef {
    /// The rule that decides on `path`: the first whose patterns have a
    /// match in it. A definition that holds the pattern `.*` decides on
    /// every path.
    pub fn find_for_str(&self, path: &str) -> (found: Option<&Rule>)
        ensures
            found is Some <==> first_match(self@.rules, path@) is Some,
            found matches Some(rule) ==> ({
                let i = first_match(self@.rules, path@)->0;
                0 <= i < self.rules.len() && *rule == self.rules[i] && rule@ == self@.rules[i]
            }),
            has_catch_all(self@.rules) ==> found is Some,
    {
        let ghost rules = self@.rules;
        let mut i: usize = 0;
        while i < self.rules.len()
            invariant
                i <= self.rules.len(),
                rules == rules_view(self.rules@),
                first_match(rules, path@) == first_match_from(rules, path@, i as int),
                forall|k: int, j: int|
                    0 <= k < i && 0 <= j < rules[k].sources.len() ==> #[trigger] rules[k].sources[j]
                        != catch_all(),
            decreases self.rules.len() - i,
        {
            if self.rules[i].matches(path) {
                return Some(&self.rules[i]);
            }
            i += 1;
        }
        None
    }
}

/// The two lists of a configuration.
#[derive(Debug, Clone, Copy, PartialEq, Eq, Structural)]
pub enum Section {
    Files,
    Variables,
}

/// The part of a list entry that an error speaks of.
#[derive(Debug, Clone, Copy, PartialEq, Eq, Structural)]
pub enum Field {
    /// The entry as a whole.
    Entry,
    /// The key `sources` of a rule.
    Sources,
    /// The key `template` of a rule.
    Template,
    /// The key of a rule that says whether matched paths are copied.
    Inclusion,
    /// The key `rename` of a rule.
    Rename,
    /// The key `name` of a variable.
    Name,
    /// The key `default` of a variable.
    Default,
}

/// Why a configuration gives no definition.
#[derive(Debug)]
pub enum ParseError {
    /// The text is no YAML document.
    InvalidYaml(serde_yaml::Error),
    /// The document is no mapping.
    NotAMapping,
    /// The value of `files` or of `variables` is no sequence.
    NotASequence(Section),
    /// An entry of a list, or the value of one of its keys, has a shape that
    /// the configuration does not allow, or a key that has to be there is
    /// missing.
    UnexpectedValue { section: Section, index: usize, field: Field },
    /// A pattern does not compile: the one at `position` among the sources
    /// of the rule at `index`.
    InvalidPattern { index: usize, position: usize },
}

/// The value of an optional node.
pub open spec fn optional_node(node: Option<&Node>) -> Option<NodeView> {
    match node {
        Some(node) => Some(node@),
        None => None,
    }
}

/// The error for a value of the wrong shape in a rule.
pub open spec fn unexpected_in_rule(index: usize, field: Field) -> ParseError {
    ParseError::UnexpectedValue { section: Section::Files, index, field }
}

/// The error for a value of the wrong shape in a variable.
pub open spec fn unexpected_in_variable(index: usize, field: Field) -> ParseError {
    ParseError::UnexpectedValue { section: Section::Variables, index, field }
}

/// The patterns that the first `n` items of a `sources` sequence give to
/// the rule at `index`: each item has to be a string that compiles, and the
/// first that is not decides the error.
pub open spec fn sources_through(items: Seq<NodeView>, index: usize, n: int) -> Result<
    Seq<Seq<char>>,
    ParseError,
>
    decreases n,
{
    if n <= 0 {
        Ok(Seq::empty())
    } else {
        match sources_through(items, index, n - 1) {
            Err(error) => Err(error),
            Ok(found) => match text_of(items[n - 1]) {
                None => Err(unexpected_in_rule(index, Field::Sources)),
                Some(text) => if regex_valid(text) {
                    Ok(found.push(text))
                } else {
                    Err(ParseError::InvalidPattern { index, position: (n - 1) as usize })
                },
            },
        }
    }
}

/// The patterns that the value of `sources` gives to the rule at `index`: it
/// is one pattern or a sequence of them, and it has to be there.
pub open spec fn sources_of(node: Option<NodeView>, index: usize) -> Result<
    Seq<Seq<char>>,
    ParseError,
> {
    match node {
        Some(NodeView::Text(text)) => if regex_valid(text) {
            Ok(seq![text])
        } else {
            Err(ParseError::InvalidPattern { index, position: 0 })
        },
        Some(NodeView::List(items)) => sources_through(items, index, items.len() as int),
        _ => Err(unexpected_in_rule(index, Field::Sources)),
    }
}

/// The flag that an optional boolean key gives to the rule at `index`: true
/// where the key is missing.
pub open spec fn flag_field(node: Option<NodeView>, index: usize, field: Field) -> Result<
    bool,
    ParseError,
> {
    match node {
        None => Ok(true),
        Some(node) => match flag_of(node) {
            Some(flag) => Ok(flag),
            None => Err(unexpected_in_rule(index, field)),
        },
    }
}

/// The text that an optional string key gives, where `otherwise` is the error
/// for a value that is no string.
pub open spec fn text_field(node: Option<NodeView>, otherwise: ParseError) -> Result<
    Option<Seq<char>>,
    ParseError,
> {
    match node {
        None => Ok(None),
        Some(node) => match text_of(node) {
            Some(text) => Ok(Some(text)),
            None => Err(otherwise),
        },
    }
}

/// The rule that the mapping `entries` at `index` of `files` stands for. The
/// keys are read in the order `sources`, `template`, the key for inclusion,
/// `rename`, and the first that is wrong decides the error.
pub open spec fn rule_of_table(entries: Seq<(NodeView, NodeView)>, index: usize) -> Result<
    RuleView,
    ParseError,
> {
    match sources_of(entry(entries, "sources"@), index) {
        Err(error) => Err(error),
        Ok(sources) => match flag_field(entry(entries, "template"@), index, Field::Template) {
            Err(error) => Err(error),
            Ok(template) => match flag_field(
                entry(entries, "include"@),
                index,
                Field::Inclusion,
            ) {
                Err(error) => Err(error),
                Ok(included) => match text_field(
                    entry(entries, "rename"@),
                    unexpected_in_rule(index, Field::Rename),
                ) {
                    Err(error) => Err(error),
                    Ok(rename) => Ok(RuleView { sources, template, included, rename }),
                },
            },
        }
    }
}

/// The rule that the entry at `index` of `files` stands for: a bare string is
/// one pattern whose matches are copied and substituted, a mapping spells the
/// rule out, and nothing else is a rule.
pub open spec fn rule_of(item: NodeView, index: usize) -> Result<RuleView, ParseError> {
    match item {
        NodeView::Text(text) => if regex_valid(text) {
            Ok(RuleView { sources: seq![text], template: true, included: true, rename: None })
        } else {
            Err(ParseError::InvalidPattern { index, position: 0 })
        },
        NodeView::Table(entries) => rule_of_table(entries, index),
        _ => Err(unexpected_in_rule(index, Field::Entry)),
    }
}

/// The rules that the first `n` entries of `files` stand for: the first entry
/// that is no rule decides the error.
pub open spec fn rules_through(items: Seq<NodeView>, n: int) -> Result<Seq<RuleView>, ParseError>
    decreases n,
{
    if n <= 0 {
        Ok(Seq::empty())
    } else {
        match rules_through(items, n - 1) {
            Err(error) => Err(error),
            Ok(rules) => match rule_of(items[n - 1], (n - 1) as usize) {
                Err(error) => Err(error),
                Ok(rule) => Ok(rules.push(rule)),
            },
        }
    }
}

/// The variable that the mapping `entries` at `index` of `variables` stands
/// for: it needs a name, and may have a default.
pub open spec fn variable_of_table(entries: Seq<(NodeView, NodeView)>, index: usize) -> Result<
    VariableView,
    ParseError,
> {
    match entry(entries, "name"@) {
        None => Err(unexpected_in_variable(index, Field::Name)),
        Some(name) => match text_of(name) {
            None => Err(unexpected_in_variable(index, Field::Name)),
            Some(name) => match text_field(
                entry(entries, "default"@),
                unexpected_in_variable(index, Field::Default),
            ) {
                Err(error) => Err(error),
                Ok(default) => Ok(VariableView { name, default }),
            },
        },
    }
}

/// The variable that the entry at `index` of `variables` stands for: a bare
/// string is a name without a default, a mapping spells the variable out,
/// and nothing else is a variable.
pub open spec fn variable_of(item: NodeView, index: usize) -> Result<VariableView, ParseError> {
    match item {
        NodeView::Text(name) => Ok(VariableView { name, default: None }),
        NodeView::Table(entries) => variable_of_table(entries, index),
        _ => Err(unexpected_in_variable(index, Field::Entry)),
    }
}

/// The variables that the first `n` entries of `variables` stand for: the
/// first entry that is no variable decides the error.
pub open spec fn variables_through(items: Seq<NodeView>, n: int) -> Result<
    Seq<VariableView>,
    ParseError,
>
    decreases n,
{
    if n <= 0 {
        Ok(Seq::empty())
    } else {
        match variables_through(items, n - 1) {
            Err(error) => Err(error),
            Ok(variables) => match variable_of(items[n - 1], (n - 1) as usize) {
                Err(error) => Err(error),
                Ok(variable) => Ok(variables.push(variable)),
            },
        }
    }
}

/// The rules that the value of `files` stands for: none where the key is
/// missing.
pub open spec fn rules_section(node: Option<NodeView>) -> Result<Seq<RuleView>, ParseError> {
    match node {
        None => Ok(Seq::empty()),
        Some(node) => match list_of(node) {
            None => Err(ParseError::NotASequence(Section::Files)),
            Some(items) => rules_through(items, items.len() as int),
        },
    }
}

/// The variables that the value of `variables` stands for: none where the
/// key is missing.
pub open spec fn variables_section(node: Option<NodeView>) -> Result<
    Seq<VariableView>,
    ParseError,
> {
    match node {
        None => Ok(Seq::empty()),
        Some(node) => match list_of(node) {
            None => Err(ParseError::NotASequence(Section::Variables)),
            Some(items) => variables_through(items, items.len() as int),
        },
    }
}

/// The definition that a configuration document stands for. The document has
/// to be a mapping. Its rules are those of `files`, followed by the three
/// fallback rules; its variables are those of `variables`. Rules are read
/// before variables, so an error among the rules comes first.
pub open spec fn definition_of(document: NodeView) -> Result<DefinitionView, ParseError> {
    match table_of(document) {
        None => Err(ParseError::NotAMapping),
        Some(entries) => match rules_section(entry(entries, "files"@)) {
            Err(error) => Err(error),
            Ok(rules) => match variables_section(entry(entries, "variables"@)) {
                Err(error) => Err(error),
                Ok(variables) => Ok(DefinitionView { rules: rules + fallback_rules(), variables }),
            },
        },
    }
}

/// An error among the first items of `sources` stays the error of the whole
/// sequence.
proof fn lemma_sources_error_stays(items: Seq<NodeView>, index: usize, n: int, m: int)
    requires
        0 <= n <= m,
        sources_through(items, index, n) is Err,
    ensures
        sources_through(items, index, m) == sources_through(items, index, n),
    decreases m - n,
{
    if n < m {
        lemma_sources_error_stays(items, index, n, m - 1);
    }
}

/// An error among the first entries of `files` stays the error of the whole
/// list.
proof fn lemma_rules_error_stays(items: Seq<NodeView>, n: int, m: int)
    requires
        0 <= n <= m,
        rules_through(items, n) is Err,
    ensures
        rules_through(items, m) == rules_through(items, n),
    decreases m - n,
{
    if n < m {
        lemma_rules_error_stays(items, n, m - 1);
    }
}

/// An error among the first entries of `variables` stays the error of the
/// whole list.
proof fn lemma_variables_error_stays(items: Seq<NodeView>, n: int, m: int)
    requires
        0 <= n <= m,
        variables_through(items, n) is Err,
    ensures
        variables_through(items, m) == variables_through(items, n),
    decreases m - n,
{
    if n < m {
        lemma_variables_error_stays(items, n, m - 1);
    }
}

/// Reads the patterns of a `sources` sequence.
fn read_source_list(items: &Vec<Node>, index: usize) -> (read: Result<Vec<Pattern>, ParseError>)
    ensures
        match sources_through(items_view(items@), index, items.len() as int) {
            Ok(sources) => read is Ok && patterns_view(read->Ok_0@) == sources,
            Err(error) => read is Err && read->Err_0 == error,
        },
{
    let ghost all = items_view(items@);
    let mut found: Vec<Pattern> = Vec::new();
    let mut k: usize = 0;
    assert(patterns_view(found@) =~= Seq::empty());
    while k < items.len()
        invariant
            k <= items.len(),
            all == items_view(items@),
            sources_through(all, index, k as int) == Ok::<Seq<Seq<char>>, ParseError>(
                patterns_view(found@),
            ),
        decreases items.len() - k,
    {
        let ghost before = patterns_view(found@);
        match items[k].as_text() {
            None => {
                proof {
                    lemma_sources_error_stays(all, index, k + 1, items.len() as int);
                }
                return Err(
                    ParseError::UnexpectedValue {
                        section: Section::Files,
                        index,
                        field: Field::Sources,
                    },
                );
            },
            Some(text) => match Pattern::new(text.to_owned()) {
                None => {
                    proof {
                        lemma_sources_error_stays(all, index, k + 1, items.len() as int);
                    }
                    return Err(ParseError::InvalidPattern { index, position: k });
                },
                Some(pattern) => {
                    found.push(pattern);
                    assert(patterns_view(found@) =~= before.push(text@));
                },
            },
        }
        k += 1;
    }
    Ok(found)
}

/// Reads the value of the key `sources` of the rule at `index`.
fn read_sources(node: Option<&Node>, index: usize) -> (read: Result<Vec<Pattern>, ParseError>)
    ensures
        match sources_of(optional_node(node), index) {
            Ok(sources) => read is Ok && patterns_view(read->Ok_0@) == sources,
            Err(error) => read is Err && read->Err_0 == error,
        },
{
    match node {
        Some(Node::Text(text)) => match Pattern::new(text.clone()) {
            Some(pattern) => {
                let mut found: Vec<Pattern> = Vec::new();
                found.push(pattern);
                Ok(found)
            },
            None => Err(ParseError::InvalidPattern { index, position: 0 }),
        },
        Some(Node::List(items)) => {
            proof {
                crate::document::lemma_list_view(*items);
            }
            read_source_list(items, index)
        },
        _ => Err(
            ParseError::UnexpectedValue { section: Section::Files, index, field: Field::Sources },
        ),
    }
}

/// Reads an optional boolean key of the rule at `index`.
fn read_flag(node: Option<&Node>, index: usize, field: Field) -> (read: Result<bool, ParseError>)
    ensures
        read == flag_field(optional_node(node), index, field),
{
    match node {
        None => Ok(true),
        Some(node) => match node.as_flag() {
            Some(flag) => Ok(flag),
            None => Err(ParseError::UnexpectedValue { section: Section::Files, index, field }),
        },
    }
}

/// Reads an optional string key, with the error to give for another value.
fn read_text(node: Option<&Node>, otherwise: ParseError) -> (read: Result<
    Option<String>,
    ParseError,
>)
    ensures
        match text_field(optional_node(node), otherwise) {
            Ok(text) => read is Ok && optional_text(read->Ok_0) == text,
            Err(error) => read is Err && read->Err_0 == error,
        },
{
    match node {
        None => Ok(None),
        Some(node) => match node.as_text() {
            Some(text) => Ok(Some(text.to_owned())),
            None => Err(otherwise),
        },
    }
}

/// Reads the rule at `index` of `files`.
fn read_rule(item: &Node, index: usize) -> (read: Result<Rule, ParseError>)
    ensures
        match rule_of(item@, index) {
            Ok(rule) => read is Ok && read->Ok_0@ == rule,
            Err(error) => read is Err && read->Err_0 == error,
        },
{
    match item {
        Node::Text(text) => match Pattern::new(text.clone()) {
            Some(pattern) => {
                let mut sources: Vec<Pattern> = Vec::new();
                sources.push(pattern);
                assert(patterns_view(sources@) =~= seq![text@]);
                Ok(Rule { sources, template: true, included: true, rename: None })
            },
            None => Err(ParseError::InvalidPattern { index, position: 0 }),
        },
        Node::Table(entries) => {
            proof {
                lemma_table_view(*entries);
            }
            let sources = match read_sources(find_entry(entries, "sources"), index) {
                Ok(sources) => sources,
                Err(error) => {
                    return Err(error);
                },
            };
            let template = match read_flag(find_entry(entries, "template"), index, Field::Template) {
                Ok(template) => template,
                Err(error) => {
                    return Err(error);
                },
            };
            let included = match read_flag(find_entry(entries, "include"), index, Field::Inclusion) {
                Ok(included) => included,
                Err(error) => {
                    return Err(error);
                },
            };
            let rename = match read_text(
                find_entry(entries, "rename"),
                ParseError::UnexpectedValue {
                    section: Section::Files,
                    index,
                    field: Field::Rename,
                },
            ) {
                Ok(rename) => rename,
                Err(error) => {
                    return Err(error);
                },
            };
            Ok(Rule { sources, template, included, rename })
        },
        _ => Err(
            ParseError::UnexpectedValue { section: Section::Files, index, field: Field::Entry },
        ),
    }
}

/// Reads the entries of `files`.
fn read_rules(items: &Vec<Node>) -> (read: Result<Vec<Rule>, ParseError>)
    ensures
        match rules_through(items_view(items@), items.len() as int) {
            Ok(rules) => read is Ok && rules_view(read->Ok_0@) == rules,
            Err(error) => read is Err && read->Err_0 == error,
        },
{
    let ghost all = items_view(items@);
    let mut rules: Vec<Rule> = Vec::new();
    let mut k: usize = 0;
    assert(rules_view(rules@) =~= Seq::empty());
    while k < items.len()
        invariant
            k <= items.len(),
            all == items_view(items@),
            rules_through(all, k as int) == Ok::<Seq<RuleView>, ParseError>(rules_view(rules@)),
        decreases items.len() - k,
    {
        let ghost before = rules_view(rules@);
        match read_rule(&items[k], k) {
            Err(error) => {
                proof {
                    lemma_rules_error_stays(all, k + 1, items.len() as int);
                }
                return Err(error);
            },
            Ok(rule) => {
                let ghost value = rule@;
                rules.push(rule);
                assert(rules_view(rules@) =~= before.push(value));
            },
        }
        k += 1;
    }
    Ok(rules)
}

/// Reads the variable at `index` of `variables`.
fn read_variable(item: &Node, index: usize) -> (read: Result<VariableDef, ParseError>)
    ensures
        match variable_of(item@, index) {
            Ok(variable) => read is Ok && read->Ok_0@ == variable,
            Err(error) => read is Err && read->Err_0 == error,
        },
{
    match item {
        Node::Text(name) => Ok(VariableDef { name: name.clone(), default: None }),
        Node::Table(entries) => {
            proof {
                lemma_table_view(*entries);
            }
            let name = match find_entry(entries, "name") {
                None => {
                    return Err(
                        ParseError::UnexpectedValue {
                            section: Section::Variables,
                            index,
                            field: Field::Name,
                        },
                    );
                },
                Some(name) => match name.as_text() {
                    None => {
                        return Err(
                            ParseError::UnexpectedValue {
                                section: Section::Variables,
                                index,
                                field: Field::Name,
                            },
                        );
                    },
                    Some(name) => name.to_owned(),
                },
            };
            let default = match read_text(
                find_entry(entries, "default"),
                ParseError::UnexpectedValue {
                    section: Section::Variables,
                    index,
                    field: Field::Default,
                },
            ) {
                Ok(default) => default,
                Err(error) => {
                    return Err(error);
                },
            };
            Ok(VariableDef { name, default })
        },
        _ => Err(
            ParseError::UnexpectedValue {
                section: Section::Variables,
                index,
                field: Field::Entry,
            },
        ),
    }
}

/// Reads the entries of `variables`.
fn read_variables(items: &Vec<Node>) -> (read: Result<Vec<VariableDef>, ParseError>)
    ensures
        match variables_through(items_view(items@), items.len() as int) {
            Ok(variables) => read is Ok && variables_view(read->Ok_0@) == variables,
            Err(error) => read is Err && read->Err_0 == error,
        },
{
    let ghost all = items_view(items@);
    let mut variables: Vec<VariableDef> = Vec::new();
    let mut k: usize = 0;
    assert(variables_view(variables@) =~= Seq::empty());
    while k < items.len()
        invariant
            k <= items.len(),
            all == items_view(items@),
            variables_through(all, k as int) == Ok::<Seq<VariableView>, ParseError>(
                variables_view(variables@),
            ),
        decreases items.len() - k,
    {
        let ghost before = variables_view(variables@);
        match read_variable(&items[k], k) {
            Err(error) => {
                proof {
                    lemma_variables_error_stays(all, k + 1, items.len() as int);
                }
                return Err(error);
            },
            Ok(variable) => {
                let ghost value = variable@;
                variables.push(variable);
                assert(variables_view(variables@) =~= before.push(value));
            },
        }
        k += 1;
    }
    Ok(variables)
}

/// A rule of one fallback pattern, or of two, that takes matched paths in or
/// leaves them out.
fn fallback_rule(first: &str, second: Option<&str>, included: bool) -> (rule: Rule)
    requires
        is_fallback_pattern(first@),
        second matches Some(text) ==> is_fallback_pattern(text@),
    ensures
        rule@ == (RuleView {
            sources: match second {
                Some(text) => seq![first@, text@],
                None => seq![first@],
            },
            template: true,
            included,
            rename: None,
        }),
{
    let mut sources: Vec<Pattern> = Vec::new();
    sources.push(Pattern::new(first.to_owned()).unwrap());
    if let Some(text) = second {
        sources.push(Pattern::new(text.to_owned()).unwrap());
        assert(patterns_view(sources@) =~= seq![first@, text@]);
    } else {
        assert(patterns_view(sources@) =~= seq![first@]);
    }
    Rule { sources, template: true, included, rename: None }
}

impl TemplateDef {
    /// Reads a definition from a configuration document.
    pub fn from_document(document: &Node) -> (read: Result<TemplateDef, ParseError>)
        ensures
            match definition_of(document@) {
                Ok(definition) => read is Ok && read->Ok_0@ == definition,
                Err(error) => read is Err && read->Err_0 == error,
            },
            read is Ok ==> has_catch_all(read->Ok_0@.rules),
    {
        let entries = match document.as_table() {
            None => {
                return Err(ParseError::NotAMapping);
            },
            Some(entries) => entries,
        };
        let mut rules = match find_entry(entries, "files") {
            None => Vec::new(),
            Some(files) => match files.as_list() {
                None => {
                    return Err(ParseError::NotASequence(Section::Files));
                },
                Some(items) => match read_rules(items) {
                    Ok(rules) => rules,
                    Err(error) => {
                        return Err(error);
                    },
                },
            },
        };
        let variables = match find_entry(entries, "variables") {
            None => Vec::new(),
            Some(found) => match found.as_list() {
                None => {
                    return Err(ParseError::NotASequence(Section::Variables));
                },
                Some(items) => match read_variables(items) {
                    Ok(variables) => variables,
                    Err(error) => {
                        return Err(error);
                    },
                },
            },
        };
        let ghost explicit = rules_view(rules@);
        assert(rules_section(entry(pairs_view(entries@), "files"@)) == Ok::<
            Seq<RuleView>,
            ParseError,
        >(explicit)) by {
            assert(rules_view(Seq::<Rule>::empty()) =~= Seq::empty());
        }
        assert(variables_section(entry(pairs_view(entries@), "variables"@)) == Ok::<
            Seq<VariableView>,
            ParseError,
        >(variables_view(variables@))) by {
            assert(variables_view(Seq::<VariableDef>::empty()) =~= Seq::empty());
        }
        rules.push(fallback_rule("^template\\.yml$", None, false));
        rules.push(fallback_rule("^\\.git/", Some("^\\.git$"), false));
        rules.push(fallback_rule(".*", None, true));
        assert(rules_view(rules@) =~= explicit + fallback_rules());
        let definition = TemplateDef { rules, variables };
        proof {
            let last = definition@.rules.len() - 1;
            assert(definition@.rules[last].sources[0] == catch_all());
        }
        Ok(definition)
    }
}

/// Whether `read` is what reading the bytes of a configuration file comes
/// to: the definition that the document stands for, the error that the
/// document gives, or, for bytes that are no YAML document, the error of the
/// YAML reader.
pub open spec fn reads_as(bytes: Seq<u8>, read: Result<TemplateDef, ParseError>) -> bool {
    match yaml_document(bytes) {
        None => read matches Err(ParseError::InvalidYaml(_)),
        Some(document) => match definition_of(document) {
            Ok(definition) => read is Ok && read->Ok_0@ == definition,
            Err(error) => read is Err && read->Err_0 == error,
        },
    }
}

/// Every definition that a document stands for ends with the three fallback
/// rules, and so holds the pattern that catches every path.
pub proof fn lemma_definition_ends_with_fallbacks(document: NodeView)
    requires
        definition_of(document) is Ok,
    ensures
        ({
            let rules = definition_of(document)->Ok_0.rules;
            &&& rules.len() >= 3
            &&& rules.subrange(rules.len() - 3, rules.len() as int) == fallback_rules()
            &&& has_catch_all(rules)
        }),
{
    let rules = definition_of(document)->Ok_0.rules;
    assert(rules[rules.len() - 1].sources[0] == catch_all());
}

/// Reading is repeatable: the same bytes give two definitions or two errors,
/// and two definitions hold the same rules and variables, in the same order,
/// down to the text of each pattern.
pub proof fn lemma_reading_is_repeatable(
    bytes: Seq<u8>,
    first: Result<TemplateDef, ParseError>,
    second: Result<TemplateDef, ParseError>,
)
    requires
        reads_as(bytes, first),
        reads_as(bytes, second),
    ensures
        first is Ok <==> second is Ok,
        first is Ok ==> first->Ok_0@ == second->Ok_0@,
        first is Err ==> (first->Err_0 is InvalidYaml <==> second->Err_0 is InvalidYaml),
        first is Err && !(first->Err_0 is InvalidYaml) ==> first->Err_0 == second->Err_0,
{
}

/// Reads a definition from the bytes of a configuration file.
///
/// The bytes have to be a YAML document, and the document a definition:
/// see [`definition_of`].
pub fn parse_definition(bytes: &[u8]) -> (read: Result<TemplateDef, ParseError>)
    ensures
        reads_as(bytes@, read),
        read is Ok ==> has_catch_all(read->Ok_0@.rules),
{
    match read_yaml(bytes) {
        Err(error) => Err(ParseError::InvalidYaml(error)),
        Ok(document) => TemplateDef::from_document(&document),
    }
}

} // verus!
