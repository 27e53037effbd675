//! What a scan of a directory found, and what a load made of it.

use crate::path::{file_stem, is_guest_binary, spec_file_stem, spec_is_guest_binary};
use crate::runtime::spec_accepts;
use vstd::prelude::*;

verus! {

/// One entry of a scanned directory, as plain values.
#[derive(Debug, Clone, PartialEq, Eq)]
pub struct DirectoryEntry {
    /// The path of the entry as the directory lists it.
    pub path: String,
    /// The canonical absolute path of the entry; `None` where it could not be
    /// resolved.
    pub canonical: Option<String>,
    /// The bytes of the file; `None` where it could not be read.
    pub contents: Option<Vec<u8>>,
}

/// What a load did with one entry.
#[derive(Debug, Clone, Copy, PartialEq, Eq, Structural)]
pub enum LoadStatus {
    /// The entry is no candidate: it has not the extension of a guest binary, it
    /// could not be resolved or read, or its resolved path has no file name.
    Ignored,
    /// The runtime did not accept the file as a module.
    Rejected,
    /// The file compiled, but its name was taken: the registered module stays.
    Kept,
    /// The file compiled and was registered under its name.
    Registered,
}

/// The text that starts the notice of a registration.
pub open spec fn spec_notice_prefix() -> Seq<char> {
    "register wasm module "@
}

/// The notice that the module `name` from `path` was registered.
pub open spec fn spec_notice_text(name: Seq<char>, path: Seq<char>) -> Seq<char> {
    spec_notice_prefix() + name + seq![' '] + path
}

impl DirectoryEntry {
    /// The name under which the entry's file is registered if it compiles: the
    /// file stem of its canonical path. `None` where the entry is no candidate.
    pub open spec fn spec_module_name(&self) -> Option<Seq<char>> {
        if spec_is_guest_binary(self.path@) && self.canonical.is_some()
            && self.contents.is_some() {
            spec_file_stem(self.canonical.unwrap()@)
        } else {
            None
        }
    }

    /// The notice of this entry's registration; `None` where the entry is no
    /// candidate.
    pub open spec fn spec_notice(&self) -> Option<Seq<char>> {
        match self.spec_module_name() {
            Some(name) => Some(spec_notice_text(name, self.canonical.unwrap()@)),
            None => None,
        }
    }

    /// The name under which the entry's file is registered if it compiles.
    pub fn module_name(&self) -> (name: Option<String>)
        ensures
            match name {
                Some(n) => self.spec_module_name() == Some(n@),
                None => self.spec_module_name().is_none(),
            },
    {
        if !is_guest_binary(self.path.as_str()) || self.contents.is_none() {
            return None;
        }
        match &self.canonical {
            Some(resolved) => file_stem(resolved.as_str()),
            None => None,
        }
    }

    /// The notice of this entry's registration.
    pub fn notice(&self) -> (text: Option<String>)
        ensures
            match text {
                Some(t) => self.spec_notice() == Some(t@),
                None => self.spec_notice().is_none(),
            },
    {
        match self.module_name() {
            None => None,
            Some(name) => {
                match &self.canonical {
                    None => None,
                    Some(resolved) => {
                        let text = String::from_str("register wasm module ");
                        let text = text.concat(name.as_str());
                        let text = text.concat(" ");
                        proof {
                            reveal_strlit(" ");
                            assert(" "@ == seq![' ']);
                        }
                        Some(text.concat(resolved.as_str()))
                    },
                }
            },
        }
    }
}

/// The strings of `texts` as sequences of characters.
pub open spec fn texts_view(texts: Seq<String>) -> Seq<Seq<char>> {
    Seq::new(texts.len(), |i: int| texts[i]@)
}

/// The notices of the first `upto` entries that `report` says were registered,
/// in the order of the entries.
pub open spec fn spec_notices(
    entries: Seq<DirectoryEntry>,
    report: Seq<LoadStatus>,
    upto: int,
) -> Seq<Seq<char>>
    decreases upto,
{
    if upto <= 0 {
        Seq::empty()
    } else {
        let earlier = spec_notices(entries, report, upto - 1);
        if upto <= entries.len() && upto <= report.len() && report[upto - 1]
            == LoadStatus::Registered && entries[upto - 1].spec_notice().is_some() {
            earlier.push(entries[upto - 1].spec_notice().unwrap())
        } else {
            earlier
        }
    }
}

/// The notices that a load owes the host: one for each entry that `report` says
/// was registered, in the order of the entries. Where one of the two is longer
/// than the other, what it holds beyond the other's length is passed over.
pub fn notices(entries: &Vec<DirectoryEntry>, report: &Vec<LoadStatus>) -> (texts: Vec<String>)
    ensures
        texts_view(texts@) == spec_notices(entries@, report@, entries@.len() as int),
{
    let mut texts: Vec<String> = Vec::new();
    let mut i: usize = 0;
    assert(texts_view(texts@) =~= spec_notices(entries@, report@, 0));
    while i < entries.len() && i < report.len()
        invariant
            i <= entries.len(),
            i <= report.len(),
            texts_view(texts@) == spec_notices(entries@, report@, i as int),
        decreases entries.len() - i,
    {
        let ghost earlier = texts@;
        if report[i] == LoadStatus::Registered {
            match entries[i].notice() {
                Some(text) => {
                    texts.push(text);
                    assert(texts_view(texts@) =~= texts_view(earlier).push(text@));
                },
                None => {},
            }
        }
        i = i + 1;
    }
    proof {
        lemma_notices_stop(entries@, report@, i as int, entries@.len() as int);
    }
    texts
}

/// Beyond the length of the shorter of `entries` and `report` there is no notice.
proof fn lemma_notices_stop(
    entries: Seq<DirectoryEntry>,
    report: Seq<LoadStatus>,
    from: int,
    upto: int,
)
    requires
        0 <= from <= upto,
        from >= entries.len() || from >= report.len(),
    ensures
        spec_notices(entries, report, upto) == spec_notices(entries, report, from),
    decreases upto - from,
{
    if from < upto {
        lemma_notices_stop(entries, report, from, upto - 1);
    }
}

/// True when one of the first `upto` entries was registered under `name`.
pub open spec fn registered_before(
    entries: Seq<DirectoryEntry>,
    report: Seq<LoadStatus>,
    upto: int,
    name: Seq<char>,
) -> bool {
    exists|j: int|
        0 <= j < upto && j < entries.len() && j < report.len() && #[trigger] report[j]
            == LoadStatus::Registered && entries[j].spec_module_name() == Some(name)
}

/// The names that are registered when a load that started with the names `before`
/// reaches the entry at index `upto`.
pub open spec fn names_before(
    before: Set<Seq<char>>,
    entries: Seq<DirectoryEntry>,
    report: Seq<LoadStatus>,
    upto: int,
) -> Set<Seq<char>> {
    Set::new(|name: Seq<char>| before.contains(name) || registered_before(entries, report, upto, name))
}

/// The names that are registered after a load that started with the names
/// `before`.
pub open spec fn names_after(
    before: Set<Seq<char>>,
    entries: Seq<DirectoryEntry>,
    report: Seq<LoadStatus>,
) -> Set<Seq<char>> {
    names_before(before, entries, report, entries.len() as int)
}

/// True when the runtime accepts the file of a candidate as a module for
/// `engine`. It says nothing of an entry that is no candidate.
pub open spec fn spec_loadable(engine: wasmtime::Engine, entry: DirectoryEntry) -> bool {
    entry.spec_module_name().is_some() && spec_accepts(engine, entry.contents.unwrap()@)
}

/// The status that a load with `engine` reports for an entry when the names
/// `taken` are registered: an entry that is no candidate is ignored; a
/// candidate that the runtime refuses is rejected; one that it accepts is
/// registered where its name is free, and kept out where it is taken.
pub open spec fn spec_status(
    engine: wasmtime::Engine,
    taken: Set<Seq<char>>,
    entry: DirectoryEntry,
) -> LoadStatus {
    match entry.spec_module_name() {
        None => LoadStatus::Ignored,
        Some(name) => if !spec_accepts(engine, entry.contents.unwrap()@) {
            LoadStatus::Rejected
        } else if taken.contains(name) {
            LoadStatus::Kept
        } else {
            LoadStatus::Registered
        },
    }
}

/// True when the status at index `at` is the one that a load with `engine`
/// reports there, given the names that are registered when it reaches that
/// entry.
pub open spec fn status_fits(
    engine: wasmtime::Engine,
    before: Set<Seq<char>>,
    entries: Seq<DirectoryEntry>,
    report: Seq<LoadStatus>,
    at: int,
) -> bool {
    report[at] == spec_status(engine, names_before(before, entries, report, at), entries[at])
}

/// True when `report` is the report of a load of `entries` with `engine` into a
/// registry that held the names `before`.
pub open spec fn is_report(
    engine: wasmtime::Engine,
    before: Set<Seq<char>>,
    entries: Seq<DirectoryEntry>,
    report: Seq<LoadStatus>,
) -> bool {
    &&& report.len() == entries.len()
    &&& forall|i: int| 0 <= i < entries.len() ==> status_fits(engine, before, entries, report, i)
}

/// The names registered before an index depend on the statuses before that index
/// only.
pub proof fn lemma_names_before_prefix(
    before: Set<Seq<char>>,
    entries: Seq<DirectoryEntry>,
    first: Seq<LoadStatus>,
    second: Seq<LoadStatus>,
    upto: int,
)
    requires
        upto <= first.len(),
        upto <= second.len(),
        forall|j: int| 0 <= j < upto ==> first[j] == second[j],
    ensures
        names_before(before, entries, first, upto) == names_before(before, entries, second, upto),
{
    assert forall|name: Seq<char>|
        registered_before(entries, first, upto, name) == registered_before(
            entries,
            second,
            upto,
            name,
        ) by {
        if registered_before(entries, first, upto, name) {
            let j = choose|j: int|
                0 <= j < upto && j < entries.len() && j < first.len() && #[trigger] first[j]
                    == LoadStatus::Registered && entries[j].spec_module_name() == Some(name);
            assert(second[j] == LoadStatus::Registered);
        }
        if registered_before(entries, second, upto, name) {
            let j = choose|j: int|
                0 <= j < upto && j < entries.len() && j < second.len() && #[trigger] second[j]
                    == LoadStatus::Registered && entries[j].spec_module_name() == Some(name);
            assert(first[j] == LoadStatus::Registered);
        }
    }
    assert(names_before(before, entries, first, upto) =~= names_before(
        before,
        entries,
        second,
        upto,
    ));
}

/// One more entry adds its name to the registered names where it was
/// registered, and nothing else.
pub proof fn lemma_names_before_step(
    before: Set<Seq<char>>,
    entries: Seq<DirectoryEntry>,
    report: Seq<LoadStatus>,
    at: int,
)
    requires
        0 <= at < entries.len(),
        at < report.len(),
    ensures
        names_before(before, entries, report, at + 1) == if report[at] == LoadStatus::Registered
            && entries[at].spec_module_name().is_some() {
            names_before(before, entries, report, at).insert(
                entries[at].spec_module_name().unwrap(),
            )
        } else {
            names_before(before, entries, report, at)
        },
{
    let step = names_before(before, entries, report, at + 1);
    let base = names_before(before, entries, report, at);
    let adds = report[at] == LoadStatus::Registered && entries[at].spec_module_name().is_some();
    assert forall|name: Seq<char>|
        step.contains(name) == (base.contains(name) || (adds && entries[at].spec_module_name()
            == Some(name))) by {
        if registered_before(entries, report, at + 1, name) {
            let j = choose|j: int|
                0 <= j < at + 1 && j < entries.len() && j < report.len() && #[trigger] report[j]
                    == LoadStatus::Registered && entries[j].spec_module_name() == Some(name);
            if j < at {
                assert(registered_before(entries, report, at, name));
            }
        }
        if registered_before(entries, report, at, name) {
            let j = choose|j: int|
                0 <= j < at && j < entries.len() && j < report.len() && #[trigger] report[j]
                    == LoadStatus::Registered && entries[j].spec_module_name() == Some(name);
            assert(registered_before(entries, report, at + 1, name));
        }
        if adds && entries[at].spec_module_name() == Some(name) {
            assert(report[at] == LoadStatus::Registered);
            assert(registered_before(entries, report, at + 1, name));
        }
    }
    if adds {
        assert(step =~= base.insert(entries[at].spec_module_name().unwrap()));
    } else {
        assert(step =~= base);
    }
}

} // verus!
