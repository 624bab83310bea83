//! The state of the whole dispatch layer, built once at startup.

use vstd::prelude::*;
use crate::codec::{GramcheckRequest, first_line, texts};
use crate::error::ApiError;
use crate::preferences::{list_preferences, preferences_of, reserved_identifier};
use crate::router::{AsyncGramchecker, Dispatch, dispatched, routes_of};
use crate::table::PreferenceTable;
use crate::worker::fresh;

verus! {

/// One discovered worker configuration.
#[derive(Debug)]
pub struct GrammarDataFile {
    /// The language code, taken from the stem of the file's name.
    pub language: String,
    /// The lines that the worker printed in its introspection mode; empty
    /// where the worker could not be run.
    pub introspection: Vec<String>,
}

/// The providers of suggestions.
pub struct LanguageFunctions {
    pub grammar_suggestions: AsyncGramchecker,
}

/// Everything that the dispatch layer holds.
pub struct State {
    pub language_functions: LanguageFunctions,
    /// The toggles of each worker, by worker number.
    pub gramcheck_preferences: Vec<PreferenceTable>,
}

/// The language codes of a list of configurations.
pub open spec fn codes_of(files: Seq<GrammarDataFile>) -> Seq<Seq<char>> {
    Seq::new(files.len(), |i: int| files[i].language@)
}

/// Merges the failure of a delivery with the failure of what was delivered.
pub fn unhoist<U, E>(outcome: Result<Result<U, E>, E>) -> (flat: Result<U, E>)
    ensures
        flat == match outcome {
            Ok(Ok(value)) => Ok::<U, E>(value),
            Ok(Err(error)) => Err(error),
            Err(error) => Err(error),
        },
{
    match outcome {
        Ok(inner) => inner,
        Err(error) => Err(error),
    }
}

/// Sets up the facade: one fresh actor per configuration, in their order,
/// and a route to it from its language code.
pub fn get_gramchecker(grammar_data_files: &Vec<GrammarDataFile>) -> (facade: AsyncGramchecker)
    ensures
        facade.wf(),
        facade@.routes == routes_of(codes_of(grammar_data_files@)),
        facade@.workers.len() == grammar_data_files@.len(),
        forall|i: int|
            0 <= i < grammar_data_files@.len() ==> #[trigger] facade@.workers[i] == fresh(),
{
    let mut codes: Vec<String> = Vec::new();
    let mut i: usize = 0;
    while i < grammar_data_files.len()
        invariant
            i <= grammar_data_files.len(),
            codes@.len() == i,
            forall|j: int| 0 <= j < i ==> (#[trigger] codes@[j])@ == grammar_data_files@[j].language@,
        decreases grammar_data_files.len() - i,
    {
        codes.push(grammar_data_files[i].language.clone());
        i = i + 1;
    }
    assert(texts(codes@) =~= codes_of(grammar_data_files@));
    AsyncGramchecker::new(&codes)
}

/// Reads the toggles of every configuration, in their order. A configuration
/// whose introspection output holds no toggle list gets the empty table.
pub fn get_gramcheck_preferences(grammar_data_files: &Vec<GrammarDataFile>) -> (tables: Vec<
    PreferenceTable,
>)
    ensures
        tables@.len() == grammar_data_files@.len(),
        forall|i: int|
            0 <= i < tables@.len() ==> {
                &&& (#[trigger] tables@[i]).wf()
                &&& tables@[i]@ == preferences_of(texts(grammar_data_files@[i].introspection@))
                &&& !tables@[i]@.contains_key(reserved_identifier())
            },
{
    let mut tables: Vec<PreferenceTable> = Vec::new();
    let mut i: usize = 0;
    while i < grammar_data_files.len()
        invariant
            i <= grammar_data_files.len(),
            tables@.len() == i,
            forall|j: int|
                0 <= j < i ==> {
                    &&& (#[trigger] tables@[j]).wf()
                    &&& tables@[j]@ == preferences_of(
                        texts(grammar_data_files@[j].introspection@),
                    )
                    &&& !tables@[j]@.contains_key(reserved_identifier())
                },
        decreases grammar_data_files.len() - i,
    {
        tables.push(list_preferences(&grammar_data_files[i].introspection));
        i = i + 1;
    }
    tables
}

/// Builds the state from the discovered configurations.
pub fn create_state(grammar_data_files: &Vec<GrammarDataFile>) -> (state: State)
    ensures
        state.wf(),
        state.language_functions.grammar_suggestions@.routes == routes_of(
            codes_of(grammar_data_files@),
        ),
        state.gramcheck_preferences@.len() == grammar_data_files@.len(),
        forall|i: int|
            0 <= i < grammar_data_files@.len() ==> {
                &&& #[trigger] state.language_functions.grammar_suggestions@.workers[i] == fresh()
                &&& state.gramcheck_preferences@[i]@ == preferences_of(
                    texts(grammar_data_files@[i].introspection@),
                )
            },
{
    State {
        language_functions: LanguageFunctions {
            grammar_suggestions: get_gramchecker(grammar_data_files),
        },
        gramcheck_preferences: get_gramcheck_preferences(grammar_data_files),
    }
}

impl State {
    /// The invariant of the state: the facade is in order, and every worker
    /// has its table of toggles.
    pub open spec fn wf(&self) -> bool {
        &&& self.language_functions.grammar_suggestions.wf()
        &&& self.gramcheck_preferences@.len()
            == self.language_functions.grammar_suggestions@.workers.len()
        &&& forall|i: int|
            0 <= i < self.gramcheck_preferences@.len() ==> (
            #[trigger] self.gramcheck_preferences@[i]).wf()
    }

    /// The single entry point for callers: dispatches a request to the worker
    /// of its language, as [`AsyncGramchecker::grammar_suggestions`] does.
    /// The tables of toggles stay as they are.
    pub fn dispatch(&mut self, language: &str, request: &GramcheckRequest) -> (r: Result<
        Dispatch,
        ApiError,
    >)
        requires
            old(self).wf(),
        ensures
            final(self).wf(),
            final(self).gramcheck_preferences == old(self).gramcheck_preferences,
            dispatched(
                old(self).language_functions.grammar_suggestions@,
                final(self).language_functions.grammar_suggestions@,
                r,
                language@,
                first_line(request.text_view()),
            ),
    {
        self.language_functions.grammar_suggestions.grammar_suggestions(request, language)
    }

    /// The toggles of a language; `None` for a language without a worker.
    pub fn list_preferences(&self, language: &str) -> (table: Option<&PreferenceTable>)
        requires
            self.wf(),
        ensures
            match table {
                Some(found) => {
                    let routes = self.language_functions.grammar_suggestions@.routes;
                    &&& routes.contains_key(language@)
                    &&& *found == self.gramcheck_preferences@[routes[language@] as int]
                    &&& found.wf()
                },
                None => !self.language_functions.grammar_suggestions@.routes.contains_key(
                    language@,
                ),
            },
    {
        match self.language_functions.grammar_suggestions.route(language) {
            Some(worker) => Some(&self.gramcheck_preferences[worker]),
            None => None,
        }
    }
}

} // verus!
