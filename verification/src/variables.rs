//! Template variables: the mapping from names to values that substitution
//! draws on, and the order in which its sources fill it. A source never
//! changes what an earlier one has set.

use crate::definition::{variables_view, VariableDef, VariableView};
use crate::document::yaml_document;
use vstd::prelude::*;

verus! {

/// The mapping of `tera` from variable names to values.
#[verifier::external_type_specification]
#[verifier::external_body]
pub struct ExContext(tera::Context);

/// The errors of `tera`.
#[verifier::external_type_specification]
#[verifier::external_body]
pub struct ExTeraError(tera::Error);

/// The value of a variable.
pub enum Binding {
    /// A string.
    Text(Seq<char>),
    /// Any other value, by the JSON text that stands for it.
    Structured(Seq<char>),
}

/// What a `tera::Context` holds: its names, each with its value.
pub uninterp spec fn context_bindings(context: tera::Context) -> Map<Seq<char>, Binding>;

/// The variables that the bytes of a defaults file give, if they give any:
/// what `tera::Context::from_serialize` makes of the value that
/// `serde_yaml::from_slice` reads from them. The bytes have to be a YAML
/// mapping that can be written as a JSON object.
pub uninterp spec fn defaults_bindings(bytes: Seq<u8>) -> Option<Map<Seq<char>, Binding>>;

/// The mapping that holds nothing.
pub open spec fn no_bindings() -> Map<Seq<char>, Binding> {
    Map::empty()
}

/// Why a defaults file gives no variables.
#[derive(Debug)]
pub enum DefaultsError {
    /// The text is no YAML document.
    InvalidYaml(serde_yaml::Error),
    /// The document is no mapping from names to values.
    NotAMapping(tera::Error),
}

/// A declared variable was left without a value: it has no default, and the
/// answers ran out before its turn.
#[derive(Debug, Clone, Copy, PartialEq, Eq, Structural)]
pub struct MissingAnswer {
    /// The position of the variable among the declared ones.
    pub index: usize,
}

/// Calls `tera::Context::new`.
///
/// Trusted: the new mapping is empty.
#[verifier::external_body]
fn context_new() -> (context: tera::Context)
    ensures
        context_bindings(context) == no_bindings(),
{
    tera::Context::new()
}

/// Calls `serde_yaml::from_slice` for a `serde_yaml::Value`, and
/// `tera::Context::from_serialize` on the value.
///
/// Trusted: whether the bytes are accepted, and the mapping that they give,
/// depend on the bytes alone; the first error comes exactly for the bytes
/// that are no YAML document.
#[verifier::external_body]
fn context_from_defaults(bytes: &[u8]) -> (read: Result<tera::Context, DefaultsError>)
    ensures
        read matches Ok(context) ==> defaults_bindings(bytes@) == Some(context_bindings(context)),
        read is Err ==> defaults_bindings(bytes@) is None,
        read matches Err(DefaultsError::InvalidYaml(_)) <==> yaml_document(bytes@) is None,
{
    match serde_yaml::from_slice::<serde_yaml::Value>(bytes) {
        Err(error) => Err(DefaultsError::InvalidYaml(error)),
        Ok(value) => tera::Context::from_serialize(value).map_err(DefaultsError::NotAMapping),
    }
}

/// Calls `tera::Context::contains_key`.
///
/// Trusted: the answer is whether the mapping has the key.
#[verifier::external_body]
fn context_contains(context: &tera::Context, key: &str) -> (found: bool)
    ensures
        found == context_bindings(*context).dom().contains(key@),
{
    context.contains_key(key)
}

/// Calls `tera::Context::insert` with a string as the value.
///
/// Trusted: the key holds the string afterwards, whatever it held before,
/// and no other key changes.
#[verifier::external_body]
fn context_insert(context: &mut tera::Context, key: &str, value: &str)
    ensures
        context_bindings(*final(context)) == context_bindings(*old(context)).insert(
            key@,
            Binding::Text(value@),
        ),
{
    context.insert(key, value)
}

/// Calls `tera::Context::get` and hands out the value if it is a string.
///
/// Trusted: the result is the string that the key holds, and there is none
/// where the key is missing or holds another kind of value.
#[verifier::external_body]
fn context_text(context: &tera::Context, key: &str) -> (text: Option<String>)
    ensures
        match text {
            Some(text) => context_bindings(*context).dom().contains(key@) && context_bindings(
                *context,
            )[key@] == Binding::Text(text@),
            None => !context_bindings(*context).dom().contains(key@) || context_bindings(
                *context,
            )[key@] is Structured,
        },
{
    context.get(key).and_then(|value| value.as_str()).map(|text| text.to_owned())
}

/// Calls `clone` on a `tera::Context`.
///
/// Trusted: the copy holds what the mapping holds.
#[verifier::external_body]
fn context_clone(context: &tera::Context) -> (copy: tera::Context)
    ensures
        context_bindings(copy) == context_bindings(*context),
{
    context.clone()
}

/// The name under which the path of the current entry is bound.
pub open spec fn file_key() -> Seq<char> {
    "file"@
}

/// The name under which the last component of the destination is bound.
pub open spec fn basename_key() -> Seq<char> {
    "basename"@
}

/// The mapping after a source has offered `value` for `key`: the offer is
/// taken only where the key has no value yet.
pub open spec fn offered(
    bindings: Map<Seq<char>, Binding>,
    key: Seq<char>,
    value: Seq<char>,
) -> Map<Seq<char>, Binding> {
    if bindings.dom().contains(key) {
        bindings
    } else {
        bindings.insert(key, Binding::Text(value))
    }
}

/// The mapping after the destination has offered its last component, if it
/// has one.
pub open spec fn with_basename(
    bindings: Map<Seq<char>, Binding>,
    basename: Option<Seq<char>>,
) -> Map<Seq<char>, Binding> {
    match basename {
        Some(name) => offered(bindings, basename_key(), name),
        None => bindings,
    }
}

/// The names that have a value once the first `n` declared variables have
/// had their turn.
pub open spec fn names_through(
    names: Set<Seq<char>>,
    declared: Seq<VariableView>,
    n: int,
) -> Set<Seq<char>>
    decreases n,
{
    if n <= 0 {
        names
    } else {
        names_through(names, declared, n - 1).insert(declared[n - 1].name)
    }
}

/// Whether the declared variable at position `i` has to be asked for: it has
/// no value when its turn comes, and no default.
pub open spec fn is_asked(names: Set<Seq<char>>, declared: Seq<VariableView>, i: int) -> bool {
    !names_through(names, declared, i).contains(declared[i].name) && declared[i].default is None
}

/// The positions of the variables among the first `n` declared ones that
/// have to be asked for, in their order.
pub open spec fn asked_through(names: Set<Seq<char>>, declared: Seq<VariableView>, n: int) -> Seq<
    int,
>
    decreases n,
{
    if n <= 0 {
        Seq::empty()
    } else if is_asked(names, declared, n - 1) {
        asked_through(names, declared, n - 1).push(n - 1)
    } else {
        asked_through(names, declared, n - 1)
    }
}

/// The mapping once the first `n` declared variables have had their turn. A
/// variable that has a value keeps it. One without takes its default, or, for
/// want of a default, the next answer that has not been used.
pub open spec fn resolved_through(
    bindings: Map<Seq<char>, Binding>,
    declared: Seq<VariableView>,
    answers: Seq<Seq<char>>,
    n: int,
) -> Map<Seq<char>, Binding>
    decreases n,
{
    if n <= 0 {
        bindings
    } else {
        let before = resolved_through(bindings, declared, answers, n - 1);
        let variable = declared[n - 1];
        offered(
            before,
            variable.name,
            match variable.default {
                Some(default) => default,
                None => answers[asked_through(bindings.dom(), declared, n - 1).len() as int],
            },
        )
    }
}

/// The names with a value after `n` turns are those that
/// [`names_through`] gives.
pub proof fn lemma_resolved_names(
    bindings: Map<Seq<char>, Binding>,
    declared: Seq<VariableView>,
    answers: Seq<Seq<char>>,
    n: int,
)
    ensures
        resolved_through(bindings, declared, answers, n).dom() == names_through(
            bindings.dom(),
            declared,
            n,
        ),
    decreases n,
{
    if n > 0 {
        lemma_resolved_names(bindings, declared, answers, n - 1);
    }
}

/// First writer wins: a name that has a value after `n` turns has the same
/// value after any later turn. With `n` at zero: no declared variable, by its
/// default or by an answer, changes what the mapping held at the start.
pub proof fn lemma_first_writer_wins(
    bindings: Map<Seq<char>, Binding>,
    declared: Seq<VariableView>,
    answers: Seq<Seq<char>>,
    n: int,
    later: int,
    key: Seq<char>,
)
    requires
        0 <= n <= later,
        resolved_through(bindings, declared, answers, n).dom().contains(key),
    ensures
        resolved_through(bindings, declared, answers, later).dom().contains(key),
        resolved_through(bindings, declared, answers, later)[key] == resolved_through(
            bindings,
            declared,
            answers,
            n,
        )[key],
    decreases later - n,
{
    if n < later {
        lemma_first_writer_wins(bindings, declared, answers, n, later - 1, key);
    }
}

/// Where a declared variable gets its value: one that has no value when its
/// turn comes takes its default, or the answer to its question, and keeps it.
pub proof fn lemma_resolved_value(
    bindings: Map<Seq<char>, Binding>,
    declared: Seq<VariableView>,
    answers: Seq<Seq<char>>,
    i: int,
    n: int,
)
    requires
        0 <= i < n,
        !names_through(bindings.dom(), declared, i).contains(declared[i].name),
    ensures
        resolved_through(bindings, declared, answers, n).dom().contains(declared[i].name),
        resolved_through(bindings, declared, answers, n)[declared[i].name] == Binding::Text(
            match declared[i].default {
                Some(default) => default,
                None => answers[asked_through(bindings.dom(), declared, i).len() as int],
            },
        ),
{
    lemma_resolved_names(bindings, declared, answers, i);
    lemma_first_writer_wins(bindings, declared, answers, i + 1, n, declared[i].name);
}

/// Which variables are asked for, and in which order: the questions are the
/// positions of which [`is_asked`] holds, each once, from the first declared
/// to the last.
pub proof fn lemma_asked_in_order(names: Set<Seq<char>>, declared: Seq<VariableView>, n: int)
    requires
        0 <= n,
    ensures
        forall|i: int|
            0 <= i < n && is_asked(names, declared, i) <==> #[trigger] asked_through(
                names,
                declared,
                n,
            ).contains(i),
        forall|a: int, b: int|
            0 <= a < b < asked_through(names, declared, n).len() ==> asked_through(
                names,
                declared,
                n,
            )[a] < asked_through(names, declared, n)[b],
        forall|a: int|
            0 <= a < asked_through(names, declared, n).len() ==> 0 <= #[trigger] asked_through(
                names,
                declared,
                n,
            )[a] < n,
    decreases n,
{
    if n > 0 {
        lemma_asked_in_order(names, declared, n - 1);
        let before = asked_through(names, declared, n - 1);
        let now = asked_through(names, declared, n);
        assert forall|i: int| 0 <= i < n && is_asked(names, declared, i) <==> #[trigger] now.contains(
            i,
        ) by {
            let grew = is_asked(names, declared, n - 1);
            if 0 <= i < n - 1 && is_asked(names, declared, i) {
                assert(before.contains(i));
                let at = choose|at: int| 0 <= at < before.len() && before[at] == i;
                assert(now[at] == i);
            }
            if i == n - 1 && grew {
                assert(now[before.len() as int] == i);
            }
            if now.contains(i) {
                let at = choose|at: int| 0 <= at < now.len() && now[at] == i;
                if at < before.len() {
                    assert(before[at] == i);
                    assert(before.contains(i));
                }
            }
        }
    }
}

/// First writer wins for the destination's name too: it changes no value that
/// the mapping held before.
pub proof fn lemma_basename_keeps(
    bindings: Map<Seq<char>, Binding>,
    basename: Option<Seq<char>>,
    key: Seq<char>,
)
    requires
        bindings.dom().contains(key),
    ensures
        with_basename(bindings, basename).dom().contains(key),
        with_basename(bindings, basename)[key] == bindings[key],
{
}

/// The positions asked for among the first `n` variables stay the first of
/// those asked for among more.
proof fn lemma_asked_grows(names: Set<Seq<char>>, declared: Seq<VariableView>, n: int, later: int)
    requires
        0 <= n <= later,
    ensures
        asked_through(names, declared, n).len() <= asked_through(names, declared, later).len(),
        asked_through(names, declared, later).subrange(
            0,
            asked_through(names, declared, n).len() as int,
        ) == asked_through(names, declared, n),
    decreases later - n,
{
    if n < later {
        lemma_asked_grows(names, declared, n, later - 1);
    }
}

/// The variables of one run: names and their values.
#[derive(Debug)]
pub struct Variables {
    context: tera::Context,
}

impl View for Variables {
    type V = Map<Seq<char>, Binding>;

    closed spec fn view(&self) -> Map<Seq<char>, Binding> {
        context_bindings(self.context)
    }
}

impl Clone for Variables {
    fn clone(&self) -> (copy: Variables)
        ensures
            copy@ == self@,
    {
        Variables { context: context_clone(&self.context) }
    }
}

impl Variables {
    /// No variables.
    pub fn new() -> (variables: Variables)
        ensures
            variables@ == no_bindings(),
    {
        Variables { context: context_new() }
    }

    /// The variables of a defaults file, read from its bytes.
    pub fn from_defaults(bytes: &[u8]) -> (read: Result<Variables, DefaultsError>)
        ensures
            read matches Ok(variables) ==> defaults_bindings(bytes@) == Some(variables@),
            read is Err ==> defaults_bindings(bytes@) is None,
            read matches Err(DefaultsError::InvalidYaml(_)) <==> yaml_document(bytes@) is None,
    {
        match context_from_defaults(bytes) {
            Ok(context) => Ok(Variables { context }),
            Err(error) => Err(error),
        }
    }

    /// Whether `key` has a value.
    pub fn contains_key(&self, key: &str) -> (found: bool)
        ensures
            found == self@.dom().contains(key@),
    {
        context_contains(&self.context, key)
    }

    /// The value of `key`, if it has one and that is a string.
    pub fn text(&self, key: &str) -> (text: Option<String>)
        ensures
            match text {
                Some(text) => self@.dom().contains(key@) && self@[key@] == Binding::Text(text@),
                None => !self@.dom().contains(key@) || self@[key@] is Structured,
            },
    {
        context_text(&self.context, key)
    }

    /// Offers `value` for `key`: it is taken only where the key has no value
    /// yet. Says whether it was taken.
    pub fn bind(&mut self, key: &str, value: &str) -> (taken: bool)
        ensures
            taken == !old(self)@.dom().contains(key@),
            final(self)@ == offered(old(self)@, key@, value@),
    {
        if context_contains(&self.context, key) {
            false
        } else {
            context_insert(&mut self.context, key, value);
            true
        }
    }

    /// The variables for one entry of the template: these, and the entry's
    /// path under the name `file`, whatever that name held before.
    pub fn with_file(&self, path: &str) -> (variables: Variables)
        ensures
            variables@ == self@.insert(file_key(), Binding::Text(path@)),
    {
        let mut context = context_clone(&self.context);
        context_insert(&mut context, "file", path);
        Variables { context }
    }

    /// The mapping as the substitution engine takes it.
    pub fn context(&self) -> (context: &tera::Context)
        ensures
            context_bindings(*context) == self@,
    {
        &self.context
    }
}

/// The positions of the declared variables that have to be asked for, in
/// the order in which to ask: those that have neither a value, from `base`,
/// from the destination's name or from an earlier declaration of the same
/// name, nor a default.
pub fn questions(base: &Variables, basename: Option<&str>, declared: &Vec<VariableDef>) -> (asked:
    Vec<usize>)
    ensures
        positions(asked@) == asked_through(
            with_basename(base@, optional_str(basename)).dom(),
            variables_view(declared@),
            declared.len() as int,
        ),
{
    let ghost all = variables_view(declared@);
    let mut seen = base.clone();
    if let Some(name) = basename {
        seen.bind("basename", name);
    }
    let ghost names = seen@.dom();
    let mut asked: Vec<usize> = Vec::new();
    let mut k: usize = 0;
    while k < declared.len()
        invariant
            k <= declared.len(),
            all == variables_view(declared@),
            seen@.dom() == names_through(names, all, k as int),
            positions(asked@) == asked_through(names, all, k as int),
        decreases declared.len() - k,
    {
        let variable = &declared[k];
        let taken = seen.bind(variable.name.as_str(), "");
        if taken && variable.default.is_none() {
            asked.push(k);
        }
        k += 1;
    }
    asked
}

/// The positions in a list, as mathematical integers.
pub open spec fn positions(list: Seq<usize>) -> Seq<int> {
    list.map_values(|i: usize| i as int)
}

/// The text of an optional string slice.
pub open spec fn optional_str(text: Option<&str>) -> Option<Seq<char>> {
    match text {
        Some(text) => Some(text@),
        None => None,
    }
}

/// The texts of a list of strings.
pub open spec fn answers_view(answers: Seq<String>) -> Seq<Seq<char>> {
    answers.map_values(|answer: String| answer@)
}

/// Fills the variables of one run. The sources have their turn in this
/// order, and none changes what an earlier one has set: `base`; the last
/// component of the destination, under the name `basename`; then the declared
/// variables in their order, each by its default or, for want of one, by the
/// next of `answers`. Answers beyond those asked for are not looked at.
///
/// Fails where the answers run out, and names the first variable left
/// without one.
pub fn resolve(
    base: Variables,
    basename: Option<&str>,
    declared: &Vec<VariableDef>,
    answers: &Vec<String>,
) -> (resolved: Result<Variables, MissingAnswer>)
    ensures
        ({
            let start = with_basename(base@, optional_str(basename));
            let all = variables_view(declared@);
            let asked = asked_through(start.dom(), all, declared.len() as int);
            if asked.len() <= answers.len() {
                resolved is Ok && resolved->Ok_0@ == resolved_through(
                    start,
                    all,
                    answers_view(answers@),
                    declared.len() as int,
                )
            } else {
                resolved is Err && resolved->Err_0.index == asked[answers.len() as int]
            }
        }),
{
    let ghost all = variables_view(declared@);
    let ghost given = answers_view(answers@);
    let mut variables = base;
    if let Some(name) = basename {
        variables.bind("basename", name);
    }
    let ghost start = variables@;
    let mut used: usize = 0;
    let mut k: usize = 0;
    while k < declared.len()
        invariant
            k <= declared.len(),
            all == variables_view(declared@),
            given == answers_view(answers@),
            start == with_basename(base@, optional_str(basename)),
            used <= answers.len(),
            used <= k,
            used == asked_through(start.dom(), all, k as int).len(),
            variables@ == resolved_through(start, all, given, k as int),
        decreases declared.len() - k,
    {
        proof {
            lemma_resolved_names(start, all, given, k as int);
        }
        let variable = &declared[k];
        if !variables.contains_key(variable.name.as_str()) {
            match &variable.default {
                Some(default) => {
                    variables.bind(variable.name.as_str(), default.as_str());
                },
                None => {
                    if used >= answers.len() {
                        proof {
                            let sooner = asked_through(start.dom(), all, k + 1);
                            let whole = asked_through(start.dom(), all, declared.len() as int);
                            lemma_asked_grows(start.dom(), all, k + 1, declared.len() as int);
                            assert(whole.subrange(0, sooner.len() as int)[used as int]
                                == whole[used as int]);
                        }
                        return Err(MissingAnswer { index: k });
                    }
                    variables.bind(variable.name.as_str(), answers[used].as_str());
                    used += 1;
                },
            }
        }
        k += 1;
    }
    Ok(variables)
}

} // verus!
