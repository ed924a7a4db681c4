use vstd::prelude::*;

use crate::error::LambdaError;
use crate::ident::{generate_id, generated_id};

verus! {

/// The metadata of one deployed function.
pub struct FunctionInfo {
    pub id: String,
    pub name: String,
    pub wasm_path: String,
    pub trigger_subjects: Vec<String>,
}

/// The mathematical content of a `FunctionInfo`.
pub struct FunctionView {
    pub id: Seq<char>,
    pub name: Seq<char>,
    pub wasm_path: Seq<char>,
    pub trigger_subjects: Seq<Seq<char>>,
}

pub open spec fn strings(v: Seq<String>) -> Seq<Seq<char>> {
    v.map_values(|s: String| s@)
}

pub open spec fn infos(v: Seq<FunctionInfo>) -> Seq<FunctionView> {
    v.map_values(|f: FunctionInfo| f@)
}

impl View for FunctionInfo {
    type V = FunctionView;

    open spec fn view(&self) -> FunctionView {
        FunctionView {
            id: self.id@,
            name: self.name@,
            wasm_path: self.wasm_path@,
            trigger_subjects: strings(self.trigger_subjects@),
        }
    }
}

fn clone_strings(v: &Vec<String>) -> (r: Vec<String>)
    ensures
        strings(r@) == strings(v@),
{
    let mut r: Vec<String> = Vec::new();
    let mut i: usize = 0;
    while i < v.len()
        invariant
            i <= v@.len(),
            strings(r@) == strings(v@.subrange(0, i as int)),
        decreases v@.len() - i,
    {
        r.push(v[i].clone());
        assert(strings(v@.subrange(0, i + 1)) =~= strings(v@.subrange(0, i as int)).push(v@[i as int]@));
        assert(strings(r@) =~= strings(v@.subrange(0, i as int)).push(v@[i as int]@));
        i = i + 1;
    }
    assert(v@.subrange(0, v@.len() as int) =~= v@);
    r
}

impl Clone for FunctionInfo {
    fn clone(&self) -> (r: Self)
        ensures
            r@ == self@,
    {
        FunctionInfo {
            id: self.id.clone(),
            name: self.name.clone(),
            wasm_path: self.wasm_path.clone(),
            trigger_subjects: clone_strings(&self.trigger_subjects),
        }
    }
}

/// How many times `s` occurs in `subjects`.
pub open spec fn occurrences(subjects: Seq<Seq<char>>, s: Seq<char>) -> nat
    decreases subjects.len(),
{
    if subjects.len() == 0 {
        0
    } else {
        occurrences(subjects.drop_last(), s) + if subjects.last() == s { 1nat } else { 0nat }
    }
}

/// The records a trigger of `s` reaches, in registration order: each record
/// once for every time it lists `s`.
pub open spec fn subscribers(recs: Seq<FunctionView>, s: Seq<char>) -> Seq<FunctionView>
    decreases recs.len(),
{
    if recs.len() == 0 {
        Seq::empty()
    } else {
        subscribers(recs.drop_last(), s) + Seq::new(
            occurrences(recs.last().trigger_subjects, s),
            |_i: int| recs.last(),
        )
    }
}

/// No two records share an id.
pub open spec fn unique_ids(recs: Seq<FunctionView>) -> bool {
    forall|i: int, j: int|
        0 <= i < recs.len() && 0 <= j < recs.len() && i != j ==> recs[i].id != recs[j].id
}

/// What loading persisted records yields: the same records, in the same
/// order, when their ids are unique; nothing otherwise.
pub open spec fn reloaded(recs: Seq<FunctionView>) -> Option<Seq<FunctionView>> {
    if unique_ids(recs) {
        Some(recs)
    } else {
        None
    }
}

/// Whether some record has the id `id`.
pub open spec fn has_id(recs: Seq<FunctionView>, id: Seq<char>) -> bool {
    exists|i: int| 0 <= i < recs.len() && recs[i].id == id
}

/// The record a fresh registration adds.
pub open spec fn new_record(
    id: Seq<char>,
    name: Seq<char>,
    wasm_path: Seq<char>,
    subjects: Seq<Seq<char>>,
) -> FunctionView {
    FunctionView { id, name, wasm_path, trigger_subjects: subjects }
}

/// The length of the longest id among `recs`.
pub open spec fn longest_id(recs: Seq<FunctionView>) -> nat
    decreases recs.len(),
{
    if recs.len() == 0 {
        0
    } else {
        let rest = longest_id(recs.drop_last());
        if recs.last().id.len() > rest { recs.last().id.len() } else { rest }
    }
}

proof fn lemma_longest_id(recs: Seq<FunctionView>, id: Seq<char>)
    requires
        has_id(recs, id),
    ensures
        id.len() <= longest_id(recs),
    decreases recs.len(),
{
    let i = choose|i: int| 0 <= i < recs.len() && recs[i].id == id;
    if i < recs.len() - 1 {
        assert(recs.drop_last()[i] == recs[i]);
        lemma_longest_id(recs.drop_last(), id);
    }
}

/// The registered functions, in registration order, with ids that are
/// unique; the subject index is derived from them (`subscribers`).
pub struct FunctionRegistry {
    functions: Vec<FunctionInfo>,
    next_seq: u64,
}

impl View for FunctionRegistry {
    type V = Seq<FunctionView>;

    closed spec fn view(&self) -> Seq<FunctionView> {
        infos(self.functions@)
    }
}

impl FunctionRegistry {
    pub open spec fn wf(&self) -> bool {
        unique_ids(self@)
    }

    /// The sequence number the next registration tries first.
    pub closed spec fn next_seq_no(&self) -> nat {
        self.next_seq as nat
    }

    /// An empty registry.
    pub fn new() -> (r: Self)
        ensures
            r.wf(),
            r@ == Seq::<FunctionView>::empty(),
    {
        let r = FunctionRegistry { functions: Vec::new(), next_seq: 0 };
        assert(r@ =~= Seq::<FunctionView>::empty());
        r
    }

    fn find_index(&self, id: &String) -> (r: Option<usize>)
        ensures
            match r {
                Some(i) => i < self@.len() && self@[i as int].id == id@,
                None => !has_id(self@, id@),
            },
    {
        let mut i: usize = 0;
        while i < self.functions.len()
            invariant
                i <= self@.len(),
                self@.len() == self.functions@.len(),
                forall|k: int| 0 <= k < i ==> self@[k].id != id@,
            decreases self@.len() - i,
        {
            if self.functions[i].id == *id {
                return Some(i);
            }
            i = i + 1;
        }
        None
    }

    /// Rebuilds a registry from persisted records, keeping their order;
    /// fails when two records share an id.
    pub fn load_functions(records: Vec<FunctionInfo>) -> (r: Result<Self, LambdaError>)
        ensures
            match r {
                Ok(reg) => reloaded(infos(records@)) == Some(reg@) && reg.wf(),
                Err(e) => reloaded(infos(records@)) is None && e is MalformedState,
            },
    {
        let mut reg = FunctionRegistry::new();
        let n = records.len();
        let ghost all = infos(records@);
        let mut i: usize = 0;
        while i < n
            invariant
                n == all.len(),
                n == records@.len(),
                all == infos(records@),
                i <= n,
                reg.wf(),
                reg@ == all.subrange(0, i as int),
            decreases n - i,
        {
            let rec = records[i].clone();
            match reg.find_index(&rec.id) {
                Some(k) => {
                    assert(all[k as int].id == all[i as int].id);
                    return Err(LambdaError::MalformedState(rec.id));
                },
                None => {},
            }
            reg.functions.push(rec);
            assert(reg@ =~= all.subrange(0, i + 1));
            i = i + 1;
        }
        assert(all.subrange(0, n as int) =~= all);
        reg.next_seq = n as u64;
        Ok(reg)
    }

    /// Registers a function under a fresh id and returns the id; the
    /// record goes after every earlier one, so each of its subjects now
    /// reaches it after the functions registered before.
    pub fn register_function(&mut self, name: &str, wasm_path: &str, triggers: Vec<String>) -> (r: String)
        requires
            old(self).wf(),
        ensures
            final(self).wf(),
            !has_id(old(self)@, r@),
            final(self)@ == old(self)@.push(new_record(r@, name@, wasm_path@, strings(triggers@))),
            !has_id(old(self)@, generated_id(old(self).next_seq_no()))
                ==> r@ == generated_id(old(self).next_seq_no()),
    {
        let mut id = generate_id(self.next_seq);
        if self.next_seq < u64::MAX {
            self.next_seq = self.next_seq + 1;
        }
        let ghost recs = self@;
        loop
            invariant
                self@ == recs,
                self.wf(),
                !has_id(recs, generated_id(old(self).next_seq_no())) ==> id@ == generated_id(old(self).next_seq_no()),
            ensures
                !has_id(recs, id@),
            decreases longest_id(recs) + 1 - id@.len(),
        {
            if self.find_index(&id).is_none() {
                break;
            }
            proof {
                lemma_longest_id(recs, id@);
                reveal_strlit("_");
            }
            id.append("_");
        }
        let rec = FunctionInfo {
            id: id.clone(),
            name: name.to_owned(),
            wasm_path: wasm_path.to_owned(),
            trigger_subjects: triggers,
        };
        self.functions.push(rec);
        assert(self@ =~= recs.push(new_record(id@, name@, wasm_path@, strings(triggers@))));
        id
    }

    /// The record registered under `id`, if any.
    pub fn get_function_by_id(&self, id: &str) -> (r: Option<FunctionInfo>)
        ensures
            match r {
                Some(f) => f@.id == id@ && self@.contains(f@),
                None => !has_id(self@, id@),
            },
    {
        let key = id.to_owned();
        match self.find_index(&key) {
            Some(i) => Some(self.functions[i].clone()),
            None => None,
        }
    }

    /// Every record, in registration order.
    pub fn list_functions(&self) -> (r: Vec<FunctionInfo>)
        ensures
            infos(r@) == self@,
    {
        let mut r: Vec<FunctionInfo> = Vec::new();
        let mut i: usize = 0;
        while i < self.functions.len()
            invariant
                i <= self@.len(),
                self@.len() == self.functions@.len(),
                infos(r@) == self@.subrange(0, i as int),
            decreases self@.len() - i,
        {
            let rec = self.functions[i].clone();
            assert(self@[i as int] == self.functions@[i as int]@);
            assert(rec@ == self@[i as int]);
            let ghost prev = r@;
            r.push(rec);
            assert(r@ == prev.push(rec));
            assert(infos(r@) =~= infos(prev).push(rec@));
            assert(self@.subrange(0, i + 1) =~= self@.subrange(0, i as int).push(self@[i as int]));
            i = i + 1;
        }
        assert(self@.subrange(0, self@.len() as int) =~= self@);
        r
    }

    /// The records a trigger of `subject` reaches, in registration order;
    /// empty when nothing subscribes to it.
    pub fn get_functions_by_subject(&self, subject: &str) -> (r: Vec<FunctionInfo>)
        ensures
            infos(r@) == subscribers(self@, subject@),
    {
        let key = subject.to_owned();
        let ghost s = subject@;
        let mut r: Vec<FunctionInfo> = Vec::new();
        let mut i: usize = 0;
        while i < self.functions.len()
            invariant
                i <= self@.len(),
                self@.len() == self.functions@.len(),
                key@ == s,
                infos(r@) == subscribers(self@.subrange(0, i as int), s),
            decreases self@.len() - i,
        {
            let f = &self.functions[i];
            let ghost fv = self@[i as int];
            let ghost base = infos(r@);
            assert(f@ == fv);
            let mut j: usize = 0;
            while j < f.trigger_subjects.len()
                invariant
                    j <= fv.trigger_subjects.len(),
                    f@ == fv,
                    key@ == s,
                    infos(r@) == base + Seq::new(
                        occurrences(fv.trigger_subjects.subrange(0, j as int), s),
                        |_k: int| fv,
                    ),
                decreases fv.trigger_subjects.len() - j,
            {
                let ghost prev = r@;
                let ghost before = occurrences(fv.trigger_subjects.subrange(0, j as int), s);
                assert(fv.trigger_subjects.subrange(0, j + 1).drop_last()
                    =~= fv.trigger_subjects.subrange(0, j as int));
                assert(fv.trigger_subjects[j as int] == f.trigger_subjects@[j as int]@);
                if f.trigger_subjects[j] == key {
                    let c = f.clone();
                    r.push(c);
                    assert(infos(r@) =~= infos(prev).push(fv));
                    assert(Seq::new(before + 1, |_k: int| fv) =~= Seq::new(before, |_k: int| fv).push(fv));
                }
                j = j + 1;
            }
            assert(fv.trigger_subjects.subrange(0, fv.trigger_subjects.len() as int) =~= fv.trigger_subjects);
            assert(self@.subrange(0, i + 1).drop_last() =~= self@.subrange(0, i as int));
            assert(self@.subrange(0, i + 1).last() == fv);
            i = i + 1;
        }
        assert(self@.subrange(0, self@.len() as int) =~= self@);
        r
    }

    /// Runs the function registered under `function_id` through `run`,
    /// which loads, compiles and executes it; fails when no function has
    /// that id.
    pub fn invoke_function<F>(&self, function_id: &str, trigger: &str, payload: &[u8], run: F) -> (r: Result<Option<Vec<u8>>, LambdaError>)
        where
            F: Fn(&FunctionInfo, &str, &[u8]) -> Result<Option<Vec<u8>>, LambdaError>,
        requires
            forall|f: &FunctionInfo, t: &str, p: &[u8]| run.requires((f, t, p)),
        ensures
            !has_id(self@, function_id@) ==> r is Err && r->Err_0 is FunctionNotFound,
            has_id(self@, function_id@) ==> exists|f: FunctionInfo|
                f@.id == function_id@ && self@.contains(f@) && run.ensures((&f, trigger, payload), r),
    {
        match self.get_function_by_id(function_id) {
            None => Err(LambdaError::FunctionNotFound(function_id.to_owned())),
            Some(f) => {
                let r = run(&f, trigger, payload);
                assert(run.ensures((&f, trigger, payload), r));
                r
            },
        }
    }
}

} // verus!
