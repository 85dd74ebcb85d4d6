//! The route table: the routes that are served at present. It changes only
//! as a whole.

use crate::compiler::{CompileError, CompileErrorView};
use crate::routes::{Route, RouteView};
use vstd::prelude::*;

verus! {

/// The routes that are served at present.
#[derive(Debug)]
pub struct RouteTable {
    routes: Vec<Route>,
}

impl View for RouteTable {
    type V = Seq<RouteView>;

    closed spec fn view(&self) -> Seq<RouteView> {
        self.routes.deep_view()
    }
}

/// The model of a [`ReloadReport`].
pub enum ReloadReportView {
    Reloaded(nat),
    Retained(CompileErrorView),
}

/// What a reload did to the table.
#[derive(Debug)]
pub enum ReloadReport {
    /// The table holds the new routes; so many of them.
    Reloaded(usize),
    /// The compilation failed and the table is as it was.
    Retained(CompileError),
}

impl View for ReloadReport {
    type V = ReloadReportView;

    open spec fn view(&self) -> ReloadReportView {
        match self {
            ReloadReport::Reloaded(count) => ReloadReportView::Reloaded(*count as nat),
            ReloadReport::Retained(error) => ReloadReportView::Retained(error@),
        }
    }
}

/// The table after a reload: the new routes where the compilation gave
/// some, else the table as it was.
pub open spec fn reloaded(
    current: Seq<RouteView>,
    outcome: Result<Seq<RouteView>, CompileErrorView>,
) -> Seq<RouteView> {
    match outcome {
        Ok(routes) => routes,
        Err(_) => current,
    }
}

/// What a reload reports.
pub open spec fn reload_report(outcome: Result<Seq<RouteView>, CompileErrorView>)
    -> ReloadReportView {
    match outcome {
        Ok(routes) => ReloadReportView::Reloaded(routes.len()),
        Err(error) => ReloadReportView::Retained(error),
    }
}

/// The table after each of a series of reloads in turn.
pub open spec fn after_reloads(
    initial: Seq<RouteView>,
    outcomes: Seq<Result<Seq<RouteView>, CompileErrorView>>,
) -> Seq<RouteView>
    decreases outcomes.len(),
{
    if outcomes.len() == 0 {
        initial
    } else {
        reloaded(after_reloads(initial, outcomes.drop_last()), outcomes.last())
    }
}

/// Whatever reloads happen, the table is at every moment one compiled list of
/// routes as a whole: the one it began with, or the one that some reload
/// compiled. It is never put together from two of them.
pub proof fn lemma_table_is_one_compilation(
    initial: Seq<RouteView>,
    outcomes: Seq<Result<Seq<RouteView>, CompileErrorView>>,
)
    ensures
        after_reloads(initial, outcomes) == initial || exists|i: int|
            0 <= i < outcomes.len() && #[trigger] outcomes[i] == Ok::<
                Seq<RouteView>,
                CompileErrorView,
            >(after_reloads(initial, outcomes)),
    decreases outcomes.len(),
{
    if outcomes.len() > 0 {
        let front = outcomes.drop_last();
        lemma_table_is_one_compilation(initial, front);
        match outcomes.last() {
            Ok(routes) => {
                assert(outcomes[outcomes.len() - 1] == Ok::<Seq<RouteView>, CompileErrorView>(
                    after_reloads(initial, outcomes),
                ));
            },
            Err(_) => {
                let table = after_reloads(initial, front);
                if table != initial {
                    let i = choose|i: int|
                        0 <= i < front.len() && #[trigger] front[i] == Ok::<
                            Seq<RouteView>,
                            CompileErrorView,
                        >(table);
                    assert(outcomes[i] == front[i]);
                }
            },
        }
    }
}

/// A failed reload leaves the table as it was.
pub proof fn lemma_failed_reload_retains(current: Seq<RouteView>, error: CompileErrorView)
    ensures
        reloaded(current, Err(error)) == current,
{
}

impl RouteTable {
    /// A table that holds `routes`.
    pub fn new(routes: Vec<Route>) -> (r: RouteTable)
        ensures
            r@ == routes.deep_view(),
    {
        RouteTable { routes }
    }

    /// The routes of the table, to read.
    pub fn routes(&self) -> (r: &Vec<Route>)
        ensures
            r.deep_view() == self@,
    {
        &self.routes
    }

    /// The number of routes.
    pub fn len(&self) -> (r: usize)
        ensures
            r == self@.len(),
    {
        self.routes.len()
    }

    /// A copy of the routes as they stand, which no later change of the
    /// table touches.
    pub fn snapshot(&self) -> (r: Vec<Route>)
        ensures
            r.deep_view() == self@,
    {
        let mut r: Vec<Route> = Vec::new();
        let mut i: usize = 0;
        while i < self.routes.len()
            invariant
                i <= self.routes.len(),
                r.len() == i,
                forall|j: int| 0 <= j < i ==> r@[j]@ == self.routes@[j]@,
            decreases self.routes.len() - i,
        {
            r.push(self.routes[i].clone());
            i += 1;
        }
        assert(r.deep_view() =~= self.routes.deep_view());
        r
    }

    /// Puts `routes` in the place of all routes of the table.
    pub fn replace(&mut self, routes: Vec<Route>)
        ensures
            final(self)@ == routes.deep_view(),
    {
        self.routes = routes;
    }

    /// Takes the outcome of a compilation: new routes replace the table as a
    /// whole, a failure leaves it as it was.
    pub fn reload(&mut self, outcome: Result<Vec<Route>, CompileError>) -> (r: ReloadReport)
        ensures
            final(self)@ == reloaded(old(self)@, crate::compiler::scan_result_view(outcome)),
            r@ == reload_report(crate::compiler::scan_result_view(outcome)),
    {
        match outcome {
            Ok(routes) => {
                let count: usize = routes.len();
                self.routes = routes;
                ReloadReport::Reloaded(count)
            },
            Err(error) => ReloadReport::Retained(error),
        }
    }
}

} // verus!
