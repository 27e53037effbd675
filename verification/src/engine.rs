//! The engine: one compilation context, the modules compiled with it, and the
//! pipeline that runs one of them.

use crate::outcome::{
    args_fit, conclude, outcome_of, result_view, spec_args_fit, spec_no_entry_cause,
    spec_oversized_cause, stdin_payload, CallError, CallFailure, RunOutcome,
};
use crate::runtime::{
    compile, describe_failure, describe_refusal, drain_sink, exports_function, isolated_context,
    memory_sink, new_engine, run_command, share_sink, spec_exports_function,
};
use crate::source::{
    is_report, lemma_names_before_prefix, lemma_names_before_step, names_after, names_before,
    spec_status, status_fits, DirectoryEntry, LoadStatus,
};
use vstd::hash_map::StringHashMap;
use vstd::prelude::*;

verus! {

/// A registry of compiled modules by name, with the compilation context that
/// they were compiled with.
///
/// Its view is the registry: the map from each registered name to its module. A
/// name, once registered, keeps its module.
pub struct WASMEngine {
    engine: wasmtime::Engine,
    modules: StringHashMap<wasmtime::Module>,
}

impl View for WASMEngine {
    type V = Map<Seq<char>, wasmtime::Module>;

    closed spec fn view(&self) -> Self::V {
        self.modules@
    }
}

/// The registry after `module` was offered under `name`: the first module
/// registered under a name stays.
pub open spec fn spec_register(
    registry: Map<Seq<char>, wasmtime::Module>,
    name: Seq<char>,
    module: wasmtime::Module,
) -> Map<Seq<char>, wasmtime::Module> {
    if registry.contains_key(name) {
        registry
    } else {
        registry.insert(name, module)
    }
}

/// True when `module` has an entry point: a function that it exports under the
/// empty name or as `_start`.
pub open spec fn spec_has_entry_point(module: wasmtime::Module) -> bool {
    spec_exports_function(module, ""@) || spec_exports_function(module, "_start"@)
}

/// True when `module` has an entry point.
pub fn has_entry_point(module: &wasmtime::Module) -> (has: bool)
    ensures
        has == spec_has_entry_point(*module),
{
    exports_function(module, "") || exports_function(module, "_start")
}

impl Default for WASMEngine {
    fn default() -> (engine: Self)
        ensures
            engine@ == Map::<Seq<char>, wasmtime::Module>::empty(),
    {
        Self::new()
    }
}

impl WASMEngine {
    /// An engine with a fresh compilation context and no module.
    pub fn new() -> (engine: Self)
        ensures
            engine@ == Map::<Seq<char>, wasmtime::Module>::empty(),
    {
        Self::with_engine(new_engine())
    }

    /// An engine over a compilation context that the host has configured, with no
    /// module.
    pub fn with_engine(engine: wasmtime::Engine) -> (created: Self)
        ensures
            created@ == Map::<Seq<char>, wasmtime::Module>::empty(),
            created.spec_engine() == engine,
    {
        WASMEngine { engine, modules: StringHashMap::new() }
    }

    /// The compilation context of this engine.
    pub fn engine(&self) -> (engine: &wasmtime::Engine)
        ensures
            *engine == self.spec_engine(),
    {
        &self.engine
    }

    /// The compilation context of this engine.
    pub closed spec fn spec_engine(&self) -> wasmtime::Engine {
        self.engine
    }

    /// True when a module is registered under `name`.
    pub fn contains(&self, name: &str) -> (found: bool)
        ensures
            found == self@.contains_key(name@),
    {
        self.modules.contains_key(name)
    }

    /// The module registered under `name`, if there is one.
    pub fn lookup(&self, name: &str) -> (found: Option<&wasmtime::Module>)
        ensures
            match found {
                Some(module) => self@.contains_key(name@) && *module == self@[name@],
                None => !self@.contains_key(name@),
            },
    {
        self.modules.get(name)
    }

    /// Offers `module` under `name`. Where the name is taken the registry stays as
    /// it is and `module` is dropped. Returns whether the module was registered.
    pub fn register(&mut self, name: String, module: wasmtime::Module) -> (fresh: bool)
        ensures
            fresh == !old(self)@.contains_key(name@),
            final(self)@ == spec_register(old(self)@, name@, module),
            final(self).spec_engine() == old(self).spec_engine(),
    {
        if self.modules.contains_key(name.as_str()) {
            false
        } else {
            self.modules.insert(name, module);
            true
        }
    }

    /// Compiles the file of `entry`, if the entry is a candidate, and offers the
    /// module under the entry's name. A file that the runtime does not accept is
    /// passed over; one that it accepts is registered unless its name is taken.
    pub fn load_entry(&mut self, entry: &DirectoryEntry) -> (status: LoadStatus)
        ensures
            final(self).spec_engine() == old(self).spec_engine(),
            forall|name: Seq<char>| #[trigger]
                old(self)@.contains_key(name) ==> final(self)@.contains_key(name)
                    && final(self)@[name] == old(self)@[name],
            status == spec_status(old(self).spec_engine(), old(self)@.dom(), *entry),
            match status {
                LoadStatus::Registered => final(self)@.dom() == old(self)@.dom().insert(
                    entry.spec_module_name().unwrap(),
                ),
                _ => final(self)@ == old(self)@,
            },
    {
        let name = match entry.module_name() {
            Some(name) => name,
            None => {
                return LoadStatus::Ignored;
            },
        };
        let bytes = match &entry.contents {
            Some(bytes) => bytes,
            None => {
                return LoadStatus::Ignored;
            },
        };
        match compile(&self.engine, bytes) {
            Err(_) => LoadStatus::Rejected,
            Ok(module) => {
                if self.register(name, module) {
                    LoadStatus::Registered
                } else {
                    LoadStatus::Kept
                }
            },
        }
    }

    /// Loads the entries of a scanned directory, in their order: each candidate
    /// is compiled and, if the runtime accepts it, registered under its name
    /// unless the name is taken. The report holds one status for each entry.
    ///
    /// No module that was registered before is replaced or removed.
    pub fn load(&mut self, entries: &Vec<DirectoryEntry>) -> (report: Vec<LoadStatus>)
        ensures
            is_report(old(self).spec_engine(), old(self)@.dom(), entries@, report@),
            final(self)@.dom() == names_after(old(self)@.dom(), entries@, report@),
            forall|name: Seq<char>| #[trigger]
                old(self)@.contains_key(name) ==> final(self)@.contains_key(name)
                    && final(self)@[name] == old(self)@[name],
            final(self).spec_engine() == old(self).spec_engine(),
    {
        let ghost start = self@;
        let ghost before = self@.dom();
        let mut report: Vec<LoadStatus> = Vec::new();
        let mut i: usize = 0;
        assert(self@.dom() =~= names_before(before, entries@, report@, 0));
        while i < entries.len()
            invariant
                i <= entries.len(),
                report@.len() == i,
                before == start.dom(),
                self.spec_engine() == old(self).spec_engine(),
                forall|k: int|
                    0 <= k < i ==> status_fits(self.spec_engine(), before, entries@, report@, k),
                self@.dom() == names_before(before, entries@, report@, i as int),
                forall|name: Seq<char>| #[trigger]
                    start.contains_key(name) ==> self@.contains_key(name) && self@[name]
                        == start[name],
            decreases entries.len() - i,
        {
            let ghost earlier = report@;
            let ghost prior = self@;
            let status = self.load_entry(&entries[i]);
            report.push(status);
            proof {
                assert forall|k: int| 0 <= k <= i implies status_fits(
                    self.spec_engine(),
                    before,
                    entries@,
                    report@,
                    k,
                ) by {
                    lemma_names_before_prefix(before, entries@, earlier, report@, k);
                    if k < i {
                        assert(status_fits(self.spec_engine(), before, entries@, earlier, k));
                        assert(report@[k] == earlier[k]);
                    } else {
                        assert(report@[k] == status);
                        assert(prior.dom() == names_before(before, entries@, report@, k));
                    }
                }
                lemma_names_before_prefix(before, entries@, earlier, report@, i as int);
                lemma_names_before_step(before, entries@, report@, i as int);
            }
            i = i + 1;
        }
        report
    }

    /// Runs `module` once, in a context of its own: the guest gets `args` as its
    /// argument vector, the payload of `args` on its standard input, and a fresh
    /// in-memory sink as its standard output. An argument list that no guest can
    /// address, and a module without an entry point, fail before anything is run;
    /// of every other run the runtime decides, and [`outcome_of`] says what is
    /// made of its answer.
    fn execute(&self, module: &wasmtime::Module, args: &Vec<String>) -> (outcome: RunOutcome)
        ensures
            !spec_args_fit(args@) ==> (outcome matches RunOutcome::Failed(cause) && cause@
                == spec_oversized_cause()),
            spec_args_fit(args@) && !spec_has_entry_point(*module) ==> (outcome matches
                RunOutcome::Failed(cause) && cause@ == spec_no_entry_cause()),
    {
        if !args_fit(args) {
            return RunOutcome::Failed(
                "argument list exceeds the size that a guest can address".to_owned(),
            );
        }
        if !has_entry_point(module) {
            return RunOutcome::Failed("module exports no entry point".to_owned());
        }
        let sink = memory_sink();
        let ran: Result<(), String> = match isolated_context(
            stdin_payload(args),
            share_sink(&sink),
            args,
        ) {
            Err(refusal) => Err(describe_refusal(&refusal)),
            Ok(context) => match run_command(&self.engine, module, context, "") {
                Ok(()) => Ok(()),
                Err(failure) => Err(describe_failure(&failure)),
            },
        };
        outcome_of(ran, drain_sink(sink))
    }

    /// Runs the module registered under `name` with `args` and returns what it
    /// wrote to its standard output.
    ///
    /// A name that is not registered is an error, and nothing is run. So is, for a
    /// registered name, an argument list that no guest can address, and so is a
    /// module that exports no entry point. A module
    /// that is registered gets an instance, a memory and a standard output of its
    /// own for this one call, and the call returns when the guest does: there is no
    /// limit on the time that a guest may take. The registry is the same after the
    /// call as before it, whatever the outcome.
    pub fn call(&self, name: &str, args: &Vec<String>) -> (result: Result<String, CallError>)
        ensures
            !self@.contains_key(name@) ==> result_view(result) == Err::<Seq<char>, CallFailure>(
                CallFailure::UnknownModule(name@),
            ),
            self@.contains_key(name@) ==> !(result_view(result) matches Err(
                CallFailure::UnknownModule(_),
            )),
            self@.contains_key(name@) && !spec_args_fit(args@) ==> result_view(result) == Err::<
                Seq<char>,
                CallFailure,
            >(CallFailure::Execution(spec_oversized_cause())),
            self@.contains_key(name@) && spec_args_fit(args@) && !spec_has_entry_point(
                self@[name@],
            ) ==> result_view(result) == Err::<Seq<char>, CallFailure>(
                CallFailure::Execution(spec_no_entry_cause()),
            ),
    {
        match self.lookup(name) {
            None => Err(CallError::UnknownModule { name: name.to_owned() }),
            Some(module) => {
                let outcome = self.execute(module, args);
                conclude(outcome)
            },
        }
    }
}

} // verus!
