use std::sync::Arc;

use vstd::prelude::*;

use crate::error::LambdaError;
use crate::function::{infos, subscribers, FunctionInfo, FunctionRegistry, FunctionView};

verus! {

/// What one function of a fan-out came to.
#[derive(Debug)]
pub enum Outcome {
    /// The guest wrote these bytes last.
    Output(Vec<u8>),
    /// The guest finished without writing any output.
    NoOutput,
    /// Loading, compiling or running the function failed.
    Failed(LambdaError),
}

/// The outcome that the result of one invocation stands for.
pub open spec fn outcome_spec(r: Result<Option<Vec<u8>>, LambdaError>) -> Outcome {
    match r {
        Ok(Some(bytes)) => Outcome::Output(bytes),
        Ok(None) => Outcome::NoOutput,
        Err(e) => Outcome::Failed(e),
    }
}

/// `o` is the outcome of a call of `run` on a record whose view is `f`.
pub open spec fn produced_by<F>(run: F, f: FunctionView, subject: &str, payload: &[u8], o: Outcome) -> bool
    where
        F: Fn(&FunctionInfo, &str, &[u8]) -> Result<Option<Vec<u8>>, LambdaError>,
{
    exists|g: FunctionInfo, res: Result<Option<Vec<u8>>, LambdaError>|
        g@ == f && call_ensures(run, (&g, subject, payload), res) && o == outcome_spec(res)
}

/// Turns the result of one invocation into its outcome.
pub fn outcome_of(r: Result<Option<Vec<u8>>, LambdaError>) -> (o: Outcome)
    ensures
        o == outcome_spec(r),
{
    match r {
        Ok(Some(bytes)) => Outcome::Output(bytes),
        Ok(None) => Outcome::NoOutput,
        Err(e) => Outcome::Failed(e),
    }
}

/// A source of trigger events; `start` and `stop` bracket its lifetime.
pub trait Trigger {
    fn start(&self) -> Result<(), LambdaError>;

    fn stop(&self) -> Result<(), LambdaError>;
}

/// A trigger driven by hand: events reach it only through `trigger`.
pub struct SimpleTrigger {
    registry: Arc<FunctionRegistry>,
}

impl SimpleTrigger {
    /// The registry whose subscriptions this trigger fans out to.
    pub closed spec fn functions(&self) -> Seq<FunctionView> {
        self.registry@
    }

    pub fn new(registry: Arc<FunctionRegistry>) -> (r: Self)
        ensures
            r.functions() == registry@,
    {
        SimpleTrigger { registry }
    }

    /// Runs every function subscribed to `subject` through `run`, in
    /// registration order, and gives one outcome for each; a failure is
    /// recorded in its own entry and the remaining functions still run.
    pub fn trigger<F>(&self, subject: &str, payload: &[u8], run: F) -> (r: Vec<Outcome>)
        where
            F: Fn(&FunctionInfo, &str, &[u8]) -> Result<Option<Vec<u8>>, LambdaError>,
        requires
            forall|f: &FunctionInfo, t: &str, p: &[u8]| run.requires((f, t, p)),
        ensures
            r@.len() == subscribers(self.functions(), subject@).len(),
            forall|i: int| 0 <= i < r@.len() ==> produced_by(
                run, subscribers(self.functions(), subject@)[i], subject, payload, #[trigger] r@[i]),
    {
        let functions = self.registry.get_functions_by_subject(subject);
        let ghost subs = subscribers(self.functions(), subject@);
        assert(infos(functions@) == subs);
        let mut results: Vec<Outcome> = Vec::new();
        let mut i: usize = 0;
        while i < functions.len()
            invariant
                i <= functions@.len(),
                infos(functions@) == subs,
                results@.len() == i,
                forall|f: &FunctionInfo, t: &str, p: &[u8]| run.requires((f, t, p)),
                forall|k: int| 0 <= k < i ==> produced_by(
                    run, subs[k], subject, payload, #[trigger] results@[k]),
            decreases functions@.len() - i,
        {
            let f = &functions[i];
            let res = run(f, subject, payload);
            assert(f@ == subs[i as int]);
            let o = outcome_of(res);
            results.push(o);
            assert(results@[i as int] == outcome_spec(res));
            assert(produced_by(run, subs[i as int], subject, payload, results@[i as int]));
            i = i + 1;
        }
        results
    }
}

impl Trigger for SimpleTrigger {
    /// Nothing to start: events arrive only through `trigger`.
    fn start(&self) -> (r: Result<(), LambdaError>)
        ensures
            r is Ok,
    {
        Ok(())
    }

    /// Nothing to stop.
    fn stop(&self) -> (r: Result<(), LambdaError>)
        ensures
            r is Ok,
    {
        Ok(())
    }
}

} // verus!
