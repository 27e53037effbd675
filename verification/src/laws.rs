//! Laws of the registry and of a call's outcome, stated over the spec functions
//! that the contracts of [`crate::engine::WASMEngine`] use.

use crate::engine::spec_register;
use crate::outcome::{spec_conclude, spec_outcome_of, CallFailure, RunOutcome};
use crate::path::spec_is_guest_binary;
use crate::source::{
    is_report, lemma_names_before_prefix, names_after, names_before, registered_before,
    spec_loadable, spec_notices, status_fits, DirectoryEntry, LoadStatus,
};
use vstd::prelude::*;
use vstd::utf8::{decode_utf8, valid_utf8};

verus! {

/// Offering a second module under a name changes nothing: the module that was
/// registered first stays, whatever is offered later.
pub proof fn lemma_first_registration_wins(
    registry: Map<Seq<char>, wasmtime::Module>,
    name: Seq<char>,
    first: wasmtime::Module,
    second: wasmtime::Module,
)
    ensures
        spec_register(spec_register(registry, name, first), name, second) == spec_register(
            registry,
            name,
            first,
        ),
        registry.contains_key(name) ==> spec_register(registry, name, first) == registry,
        !registry.contains_key(name) ==> spec_register(registry, name, first)[name] == first,
{
}

/// Output that is not well-formed UTF-8 is a decoding error, whatever else the
/// run did; well-formed output is returned whole.
pub proof fn lemma_malformed_output_is_an_error(bytes: Vec<u8>)
    ensures
        !valid_utf8(bytes@) ==> spec_conclude(RunOutcome::Completed(bytes)) == Err::<
            Seq<char>,
            CallFailure,
        >(CallFailure::Decode),
        valid_utf8(bytes@) ==> spec_conclude(RunOutcome::Completed(bytes)) == Ok::<
            Seq<char>,
            CallFailure,
        >(decode_utf8(bytes@)),
{
}

/// A run that failed gives an execution error with its cause, whatever the
/// guest had written by then: no part of that output is returned.
pub proof fn lemma_failed_run_gives_no_output(cause: String, drained: Option<Vec<u8>>)
    ensures
        spec_conclude(spec_outcome_of(Err(cause), drained)) == Err::<Seq<char>, CallFailure>(
            CallFailure::Execution(cause@),
        ),
{
}

/// A load never loses a name: every name registered before it is registered
/// after it.
pub proof fn lemma_load_keeps_names(
    before: Set<Seq<char>>,
    entries: Seq<DirectoryEntry>,
    report: Seq<LoadStatus>,
)
    ensures
        before.subset_of(names_after(before, entries, report)),
{
}

/// The names of the entries that the runtime accepts for `engine`.
pub open spec fn loadable_names(
    engine: wasmtime::Engine,
    entries: Seq<DirectoryEntry>,
) -> Set<Seq<char>> {
    Set::new(
        |name: Seq<char>|
            exists|i: int|
                0 <= i < entries.len() && spec_loadable(engine, #[trigger] entries[i])
                    && entries[i].spec_module_name() == Some(name),
    )
}

/// A load registers every loadable entry and nothing else: the names after it
/// are the names before it and the names of the candidates that the runtime
/// accepts, wherever in the listing they stand and whatever stands beside them.
pub proof fn lemma_load_registers_what_is_loadable(
    engine: wasmtime::Engine,
    before: Set<Seq<char>>,
    entries: Seq<DirectoryEntry>,
    report: Seq<LoadStatus>,
)
    requires
        is_report(engine, before, entries, report),
    ensures
        names_after(before, entries, report) == before.union(loadable_names(engine, entries)),
{
    let after = names_after(before, entries, report);
    let all = before.union(loadable_names(engine, entries));
    assert forall|name: Seq<char>| after.contains(name) implies all.contains(name) by {
        if !before.contains(name) {
            let j = choose|j: int|
                0 <= j < entries.len() && j < entries.len() && j < report.len()
                    && #[trigger] report[j] == LoadStatus::Registered
                    && entries[j].spec_module_name() == Some(name);
            assert(status_fits(engine, before, entries, report, j));
            assert(spec_loadable(engine, entries[j]));
        }
    }
    assert forall|name: Seq<char>| all.contains(name) implies after.contains(name) by {
        if !before.contains(name) {
            let i = choose|i: int|
                0 <= i < entries.len() && spec_loadable(engine, #[trigger] entries[i])
                    && entries[i].spec_module_name() == Some(name);
            assert(status_fits(engine, before, entries, report, i));
            if report[i] == LoadStatus::Registered {
                assert(registered_before(entries, report, entries.len() as int, name));
            } else {
                assert(names_before(before, entries, report, i).contains(name));
                let j = choose|j: int|
                    0 <= j < i && j < entries.len() && j < report.len() && #[trigger] report[j]
                        == LoadStatus::Registered && entries[j].spec_module_name() == Some(name);
                assert(registered_before(entries, report, entries.len() as int, name));
            }
        }
    }
    assert(after =~= all);
}

/// Only guest binaries are registered: an entry whose path has not the
/// extension of a guest binary is ignored, and every name that a load adds is
/// the module name of an entry that has it.
pub proof fn lemma_load_ignores_other_files(
    engine: wasmtime::Engine,
    before: Set<Seq<char>>,
    entries: Seq<DirectoryEntry>,
    report: Seq<LoadStatus>,
)
    requires
        is_report(engine, before, entries, report),
    ensures
        forall|i: int|
            0 <= i < entries.len() && !spec_is_guest_binary(entries[i].path@) ==> #[trigger] report[i]
                == LoadStatus::Ignored,
        forall|name: Seq<char>|
            names_after(before, entries, report).contains(name) && !before.contains(name)
                ==> exists|i: int|
                0 <= i < entries.len() && spec_is_guest_binary((#[trigger] entries[i]).path@)
                    && entries[i].spec_module_name() == Some(name),
{
    assert forall|i: int|
        0 <= i < entries.len() && !spec_is_guest_binary(entries[i].path@) implies #[trigger] report[i]
        == LoadStatus::Ignored by {
        assert(status_fits(engine, before, entries, report, i));
    }
    assert forall|name: Seq<char>|
        names_after(before, entries, report).contains(name) && !before.contains(
            name,
        ) implies exists|i: int|
        0 <= i < entries.len() && spec_is_guest_binary((#[trigger] entries[i]).path@)
            && entries[i].spec_module_name() == Some(name) by {
        assert(registered_before(entries, report, entries.len() as int, name));
        let j = choose|j: int|
            0 <= j < entries.len() && j < report.len() && #[trigger] report[j]
                == LoadStatus::Registered && entries[j].spec_module_name() == Some(name);
        assert(spec_is_guest_binary(entries[j].path@));
    }
}

/// Two reports of the same load agree up to `upto`.
proof fn lemma_reports_agree(
    engine: wasmtime::Engine,
    before: Set<Seq<char>>,
    entries: Seq<DirectoryEntry>,
    first: Seq<LoadStatus>,
    second: Seq<LoadStatus>,
    upto: int,
)
    requires
        is_report(engine, before, entries, first),
        is_report(engine, before, entries, second),
        0 <= upto <= entries.len(),
    ensures
        forall|i: int| 0 <= i < upto ==> first[i] == second[i],
    decreases upto,
{
    if upto > 0 {
        let last = upto - 1;
        lemma_reports_agree(engine, before, entries, first, second, last);
        lemma_names_before_prefix(before, entries, first, second, last);
        assert(status_fits(engine, before, entries, first, last));
        assert(status_fits(engine, before, entries, second, last));
    }
}

/// What a load reports and registers is determined by the engine, the names in
/// the registry and the entries: two loads of the same entries with the same
/// engine into registries with the same names give the same report and the same
/// names.
pub proof fn lemma_report_is_determined(
    engine: wasmtime::Engine,
    before: Set<Seq<char>>,
    entries: Seq<DirectoryEntry>,
    first: Seq<LoadStatus>,
    second: Seq<LoadStatus>,
)
    requires
        is_report(engine, before, entries, first),
        is_report(engine, before, entries, second),
    ensures
        first == second,
        names_after(before, entries, first) == names_after(before, entries, second),
{
    lemma_reports_agree(engine, before, entries, first, second, entries.len() as int);
    assert(first =~= second);
}

/// A report without a registration owes no notice.
pub proof fn lemma_no_registration_no_notice(
    entries: Seq<DirectoryEntry>,
    report: Seq<LoadStatus>,
    upto: int,
)
    requires
        forall|i: int| 0 <= i < report.len() ==> #[trigger] report[i] != LoadStatus::Registered,
    ensures
        spec_notices(entries, report, upto) == Seq::<Seq<char>>::empty(),
    decreases upto,
{
    if upto > 0 {
        lemma_no_registration_no_notice(entries, report, upto - 1);
    }
}

/// Loading the same entries a second time registers nothing: the second load
/// reports no registration, owes no notice, and leaves the set of registered
/// names as the first load left it.
pub proof fn lemma_second_load_registers_nothing(
    engine: wasmtime::Engine,
    before: Set<Seq<char>>,
    entries: Seq<DirectoryEntry>,
    first: Seq<LoadStatus>,
    second: Seq<LoadStatus>,
)
    requires
        is_report(engine, before, entries, first),
        is_report(engine, names_after(before, entries, first), entries, second),
    ensures
        forall|i: int| 0 <= i < entries.len() ==> #[trigger] second[i] != LoadStatus::Registered,
        spec_notices(entries, second, entries.len() as int) == Seq::<Seq<char>>::empty(),
        names_after(names_after(before, entries, first), entries, second) == names_after(
            before,
            entries,
            first,
        ),
{
    let loaded = names_after(before, entries, first);
    lemma_load_registers_what_is_loadable(engine, before, entries, first);
    assert forall|i: int| 0 <= i < entries.len() implies #[trigger] second[i]
        != LoadStatus::Registered by {
        assert(status_fits(engine, loaded, entries, second, i));
        if second[i] == LoadStatus::Registered {
            let name = entries[i].spec_module_name().unwrap();
            assert(spec_loadable(engine, entries[i]));
            assert(loadable_names(engine, entries).contains(name));
            assert(names_before(loaded, entries, second, i).contains(name));
        }
    }
    lemma_no_registration_no_notice(entries, second, entries.len() as int);
    assert forall|name: Seq<char>|
        !registered_before(entries, second, entries.len() as int, name) by {
        if registered_before(entries, second, entries.len() as int, name) {
            let j = choose|j: int|
                0 <= j < entries.len() && j < entries.len() && j < second.len()
                    && #[trigger] second[j] == LoadStatus::Registered
                    && entries[j].spec_module_name() == Some(name);
            assert(second[j] != LoadStatus::Registered);
        }
    }
    assert(names_after(loaded, entries, second) =~= loaded);
}

/// Loading is idempotent: a registry is after the second load of the same
/// entries what it was after the first, each name with the module that it had.
/// `registry` is the registry before the first load, `loaded` after it and
/// `reloaded` after the second.
pub proof fn lemma_load_is_idempotent<M>(
    engine: wasmtime::Engine,
    registry: Map<Seq<char>, M>,
    loaded: Map<Seq<char>, M>,
    reloaded: Map<Seq<char>, M>,
    entries: Seq<DirectoryEntry>,
    first: Seq<LoadStatus>,
    second: Seq<LoadStatus>,
)
    requires
        is_report(engine, registry.dom(), entries, first),
        loaded.dom() == names_after(registry.dom(), entries, first),
        is_report(engine, loaded.dom(), entries, second),
        reloaded.dom() == names_after(loaded.dom(), entries, second),
        forall|name: Seq<char>| #[trigger]
            loaded.contains_key(name) ==> reloaded.contains_key(name) && reloaded[name]
                == loaded[name],
    ensures
        reloaded == loaded,
{
    lemma_second_load_registers_nothing(engine, registry.dom(), entries, first, second);
    assert(reloaded =~= loaded);
}

/// One loadable file whose name is free is registered, and its registration
/// owes exactly one notice: the text that names the module and its path.
pub proof fn lemma_one_loadable_entry_one_notice(
    engine: wasmtime::Engine,
    before: Set<Seq<char>>,
    entries: Seq<DirectoryEntry>,
    report: Seq<LoadStatus>,
)
    requires
        is_report(engine, before, entries, report),
        entries.len() == 1,
        spec_loadable(engine, entries[0]),
        !before.contains(entries[0].spec_module_name().unwrap()),
    ensures
        report == seq![LoadStatus::Registered],
        names_after(before, entries, report) == before.insert(
            entries[0].spec_module_name().unwrap(),
        ),
        spec_notices(entries, report, 1) == seq![entries[0].spec_notice().unwrap()],
{
    let name = entries[0].spec_module_name().unwrap();
    assert(status_fits(engine, before, entries, report, 0));
    assert(!registered_before(entries, report, 0, name));
    assert(report =~= seq![LoadStatus::Registered]);
    assert(registered_before(entries, report, 1, name));
    assert forall|other: Seq<char>| registered_before(entries, report, 1, other) implies other
        == name by {
        let j = choose|j: int|
            0 <= j < 1 && j < entries.len() && j < report.len() && #[trigger] report[j]
                == LoadStatus::Registered && entries[j].spec_module_name() == Some(other);
        assert(j == 0);
    }
    assert(names_after(before, entries, report) =~= before.insert(name));
    assert(spec_notices(entries, report, 0) == Seq::<Seq<char>>::empty());
    assert(spec_notices(entries, report, 1) =~= seq![entries[0].spec_notice().unwrap()]);
}

} // verus!
