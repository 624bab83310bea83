//! The routing table from language codes to workers, and the facade through
//! which callers reach a worker.

use vstd::prelude::*;
use crate::codec::{GramcheckRequest, first_line, resolves, texts};
use crate::error::{ApiError, ErrorKind, unavailable_message, unsupported_message};
use crate::worker::{
    Completion, Directive, ExecutorView, GramcheckExecutor, completed, directs, failed, fresh,
    in_flight, submitted,
};

verus! {

/// The routing table: a `hashbrown::HashMap` from language codes to worker
/// numbers, kept out of the verifier's sight.
#[verifier::external_body]
pub struct RoutingTable {
    map: hashbrown::HashMap<String, usize>,
}

/// What a routing table holds.
pub uninterp spec fn routes_in(table: RoutingTable) -> Map<Seq<char>, usize>;

/// The table without routes.
pub open spec fn no_routes() -> Map<Seq<char>, usize> {
    Map::empty()
}

/// `hashbrown::HashMap::new`: a map that holds nothing.
#[verifier::external_body]
fn routes_new() -> (table: RoutingTable)
    ensures
        routes_in(table) == no_routes(),
{
    RoutingTable { map: hashbrown::HashMap::new() }
}

/// `hashbrown::HashMap::insert`: afterwards the key maps to the value, and
/// every other key is as before. The value that the key had is returned.
#[verifier::external_body]
fn routes_insert(table: &mut RoutingTable, key: String, value: usize) -> (previous: Option<usize>)
    ensures
        routes_in(*final(table)) == routes_in(*old(table)).insert(key@, value),
        previous == if routes_in(*old(table)).contains_key(key@) {
            Some(routes_in(*old(table))[key@])
        } else {
            None
        },
{
    table.map.insert(key, value)
}

/// `hashbrown::HashMap::get`: the value of the key, if the map has the key.
#[verifier::external_body]
fn routes_get(table: &RoutingTable, key: &str) -> (value: Option<usize>)
    ensures
        value == if routes_in(*table).contains_key(key@) {
            Some(routes_in(*table)[key@])
        } else {
            None
        },
{
    table.map.get(key).copied()
}

/// The routes that a list of language codes gives: each code leads to the
/// position of its last occurrence in the list.
pub open spec fn routes_of(codes: Seq<Seq<char>>) -> Map<Seq<char>, usize>
    decreases codes.len(),
{
    if codes.len() == 0 {
        Map::empty()
    } else {
        routes_of(codes.drop_last()).insert(codes.last(), (codes.len() - 1) as usize)
    }
}

/// The routes lead exactly to the codes of the list, each to a position
/// where it stands.
pub proof fn lemma_routes_of(codes: Seq<Seq<char>>, code: Seq<char>)
    requires
        codes.len() <= usize::MAX,
    ensures
        routes_of(codes).contains_key(code) <==> codes.contains(code),
        routes_of(codes).contains_key(code) ==> routes_of(codes)[code] < codes.len()
            && codes[routes_of(codes)[code] as int] == code,
    decreases codes.len(),
{
    if codes.len() > 0 {
        let front = codes.drop_last();
        lemma_routes_of(front, code);
        if codes.last() == code {
            assert(codes[codes.len() - 1] == code);
        } else if front.contains(code) {
            let i = choose|i: int| 0 <= i < front.len() && front[i] == code;
            assert(codes[i] == code);
        } else if codes.contains(code) {
            let i = choose|i: int| 0 <= i < codes.len() && codes[i] == code;
            assert(front[i] == code);
        }
    }
}

/// The facade: one actor per worker, and the routes to them.
pub struct AsyncGramchecker {
    gramcheckers: RoutingTable,
    executors: Vec<GramcheckExecutor>,
}

/// The mathematical value of the facade.
pub ghost struct FacadeView {
    /// The worker number of each supported language.
    pub routes: Map<Seq<char>, usize>,
    /// The actors, by worker number.
    pub workers: Seq<ExecutorView>,
}

/// A request that was accepted: the worker it went to, and what the driver
/// of that worker does next.
#[derive(Debug)]
pub struct Dispatch {
    pub worker: usize,
    pub directive: Directive,
}

/// What dispatching a request with the encoded line `line` for `language`
/// does to the facade, and what it answers.
///
/// A language without a route changes nothing and is refused with
/// `UnsupportedLanguage`. Otherwise the request is submitted to the actor at
/// the end of the route, and to no other: a dead actor refuses it with
/// `WorkerUnavailable`; an idle one hands its line out for writing; a busy
/// one lets it wait.
pub open spec fn dispatched(
    before: FacadeView,
    after: FacadeView,
    answer: Result<Dispatch, ApiError>,
    language: Seq<char>,
    line: Seq<char>,
) -> bool {
    if !before.routes.contains_key(language) {
        &&& after == before
        &&& answer matches Err(error)
        &&& error.kind == ErrorKind::UnsupportedLanguage
        &&& error.message@ == unsupported_message()
    } else {
        let worker = before.routes[language];
        let actor = before.workers[worker as int];
        &&& after.routes == before.routes
        &&& after.workers == before.workers.update(worker as int, submitted(actor, line))
        &&& match answer {
            Ok(dispatch) => {
                &&& actor.alive
                &&& dispatch.worker == worker
                &&& actor.pending.len() == 0 ==> directs(dispatch.directive, Some(line))
                &&& actor.pending.len() > 0 ==> dispatch.directive is Wait
            },
            Err(error) => {
                &&& !actor.alive
                &&& error.kind == ErrorKind::WorkerUnavailable
                &&& error.message@ == unavailable_message()
            },
        }
    }
}

/// The death of one worker is contained: every other actor is as it was, so
/// a request dispatched to it afterwards fares as it would have before.
pub proof fn lemma_failure_is_contained(
    before: FacadeView,
    dead: int,
    other: int,
    line: Seq<char>,
)
    requires
        0 <= dead < before.workers.len(),
        0 <= other < before.workers.len(),
        dead != other,
    ensures
        before.workers.update(dead, failed(before.workers[dead]))[other] == before.workers[other],
        submitted(before.workers.update(dead, failed(before.workers[dead]))[other], line)
            == submitted(before.workers[other], line),
{
}

impl View for AsyncGramchecker {
    type V = FacadeView;

    closed spec fn view(&self) -> FacadeView {
        FacadeView {
            routes: routes_in(self.gramcheckers),
            workers: Seq::new(self.executors@.len(), |i: int| self.executors@[i]@),
        }
    }
}

impl AsyncGramchecker {
    /// The invariant of the facade: every route leads to a worker, and every
    /// actor is in order.
    pub open spec fn wf(&self) -> bool {
        &&& forall|code: Seq<char>| #[trigger]
            self@.routes.contains_key(code) ==> self@.routes[code] < self@.workers.len()
        &&& forall|i: int|
            0 <= i < self@.workers.len() && !(#[trigger] self@.workers[i]).alive
                ==> self@.workers[i].pending.len() == 0
    }

    /// A facade for one worker per language code, numbered in the order of
    /// the codes. Where a code comes twice, its later worker serves it.
    pub fn new(languages: &Vec<String>) -> (facade: AsyncGramchecker)
        ensures
            facade.wf(),
            facade@.routes == routes_of(texts(languages@)),
            facade@.workers.len() == languages@.len(),
            forall|i: int| 0 <= i < languages@.len() ==> #[trigger] facade@.workers[i] == fresh(),
    {
        let ghost codes = texts(languages@);
        let mut gramcheckers = routes_new();
        let mut executors: Vec<GramcheckExecutor> = Vec::new();
        let mut i: usize = 0;
        while i < languages.len()
            invariant
                i <= languages.len(),
                codes == texts(languages@),
                routes_in(gramcheckers) == routes_of(codes.subrange(0, i as int)),
                executors@.len() == i,
                forall|j: int| 0 <= j < i ==> (#[trigger] executors@[j])@ == fresh(),
            decreases languages.len() - i,
        {
            assert(codes.subrange(0, i + 1).drop_last() == codes.subrange(0, i as int));
            let _ = routes_insert(&mut gramcheckers, languages[i].clone(), i);
            executors.push(GramcheckExecutor::new());
            i = i + 1;
        }
        assert(codes.subrange(0, i as int) == codes);
        let facade = AsyncGramchecker { gramcheckers, executors };
        proof {
            assert forall|code: Seq<char>| #[trigger]
                facade@.routes.contains_key(code) implies facade@.routes[code]
                < facade@.workers.len() by {
                lemma_routes_of(codes, code);
            }
        }
        facade
    }

    /// Dispatches a request to the worker of its language. A language without
    /// a worker is refused with `UnsupportedLanguage`, and nothing else
    /// happens: no actor is touched. Otherwise the request is submitted to
    /// the actor of that worker, and no other actor is touched.
    pub fn grammar_suggestions(&mut self, message: &GramcheckRequest, language: &str) -> (r: Result<
        Dispatch,
        ApiError,
    >)
        requires
            old(self).wf(),
        ensures
            final(self).wf(),
            dispatched(old(self)@, final(self)@, r, language@, first_line(message.text_view())),
    {
        let worker = match routes_get(&self.gramcheckers, language) {
            Some(worker) => worker,
            None => {
                return Err(ApiError::unsupported_language());
            },
        };
        let ghost before = self@;
        assert(before.routes.contains_key(language@));
        assert(before.workers[worker as int] == self.executors@[worker as int]@);
        let outcome = self.executors[worker].submit(message);
        assert(self@.workers =~= before.workers.update(
            worker as int,
            submitted(before.workers[worker as int], first_line(message.text_view())),
        ));
        match outcome {
            Ok(directive) => Ok(Dispatch { worker, directive }),
            Err(error) => Err(error),
        }
    }

    /// Takes the response line read from a worker, as
    /// [`GramcheckExecutor::complete`] does. No other actor is touched. A
    /// worker number that does not exist is answered with `None`.
    pub fn complete(&mut self, worker: usize, raw_line: &str) -> (done: Option<Completion>)
        requires
            old(self).wf(),
        ensures
            final(self).wf(),
            final(self)@.routes == old(self)@.routes,
            worker >= old(self)@.workers.len() ==> final(self)@ == old(self)@ && done is None,
            worker < old(self)@.workers.len() ==> {
                let before = old(self)@.workers[worker as int];
                &&& final(self)@.workers == old(self)@.workers.update(
                    worker as int,
                    completed(before),
                )
                &&& match done {
                    Some(completion) => {
                        &&& before.pending.len() > 0
                        &&& resolves(completion.result, raw_line@)
                        &&& directs(completion.next, in_flight(completed(before)))
                    },
                    None => before.pending.len() == 0,
                }
            },
    {
        if worker >= self.executors.len() {
            return None;
        }
        let ghost before = self@;
        let done = self.executors[worker].complete(raw_line);
        assert(self@.workers =~= before.workers.update(
            worker as int,
            completed(before.workers[worker as int]),
        ));
        assert(self@.routes == before.routes);
        done
    }

    /// Takes the news that a worker process died, as
    /// [`GramcheckExecutor::fail`] does: every request pending at that worker
    /// fails with `WorkerUnavailable`. No other actor is touched, so the
    /// other languages go on as before. A worker number that does not exist
    /// is answered with no errors.
    pub fn fail(&mut self, worker: usize) -> (errors: Vec<ApiError>)
        requires
            old(self).wf(),
        ensures
            final(self).wf(),
            final(self)@.routes == old(self)@.routes,
            forall|i: int|
                0 <= i < errors@.len() ==> (#[trigger] errors@[i]).kind
                    == ErrorKind::WorkerUnavailable && errors@[i].message@ == unavailable_message(),
            worker >= old(self)@.workers.len() ==> final(self)@ == old(self)@ && errors@.len() == 0,
            worker < old(self)@.workers.len() ==> {
                let before = old(self)@.workers[worker as int];
                &&& final(self)@.workers == old(self)@.workers.update(worker as int, failed(before))
                &&& errors@.len() == before.pending.len()
            },
    {
        if worker >= self.executors.len() {
            return Vec::new();
        }
        let ghost before = self@;
        assert(before.workers[worker as int] == self.executors@[worker as int]@);
        let errors = self.executors[worker].fail();
        assert(self@.workers =~= before.workers.update(
            worker as int,
            failed(before.workers[worker as int]),
        ));
        assert(self@.routes == before.routes);
        errors
    }

    /// The number of workers.
    pub fn workers(&self) -> (count: usize)
        ensures
            count == self@.workers.len(),
    {
        self.executors.len()
    }

    /// The worker that serves a language, if one does.
    pub fn route(&self, language: &str) -> (worker: Option<usize>)
        ensures
            worker == if self@.routes.contains_key(language@) {
                Some(self@.routes[language@])
            } else {
                None
            },
    {
        routes_get(&self.gramcheckers, language)
    }
}

} // verus!
