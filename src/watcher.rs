//! Change events between two analyses of the same files.
use vstd::prelude::*;

use crate::error::Error;
use crate::models::{SymbolInfo, SymbolKind, TestStatus, TypeTest};

verus! {

/// Something that changed between two analyses.
#[derive(Clone, Debug)]
pub enum WatchEvent {
    SourceFileChanged { file: String, content: String },
    SourceFileCreated { file: String },
    SourceFileRemoved { file: String },
    SymbolRenamed { old_name: String, new_name: String, file: String },
    SymbolAdded { name: String, kind: SymbolKind, file: String },
    SymbolRemoved { name: String, file: String },
    ModuleDepChanged { file: String },
    ExternalDepChanged { package: String },
    TestStatusChanged { file: String, test: String, status: TestStatus },
    NewFailingTest { file: String, test: String },
    TestFixed { file: String, test: String },
    NewTestAdded { file: String, test: String },
}

/// Receives change events.
pub trait WatchHandler {
    fn handle_event(&self, event: &WatchEvent) -> core::result::Result<(), Error>;
}

/// Two symbols are the same when name, kind and file agree.
pub open spec fn same_symbol(a: SymbolInfo, b: SymbolInfo) -> bool {
    a.name@ == b.name@ && a.kind == b.kind && a.file@ == b.file@
}

pub open spec fn has_symbol(ss: Seq<SymbolInfo>, s: SymbolInfo) -> bool {
    exists|i: int| 0 <= i < ss.len() && same_symbol(#[trigger] ss[i], s)
}

/// `SymbolAdded` for each symbol of `new` that `old` lacks, in order.
pub open spec fn added_events(old: Seq<SymbolInfo>, new: Seq<SymbolInfo>) -> Seq<WatchEvent>
    decreases new.len(),
{
    if new.len() == 0 {
        Seq::<WatchEvent>::empty()
    } else {
        let s = new.last();
        added_events(old, new.drop_last()) + if has_symbol(old, s) {
            Seq::<WatchEvent>::empty()
        } else {
            seq![WatchEvent::SymbolAdded { name: s.name, kind: s.kind, file: s.file }]
        }
    }
}

/// `SymbolRemoved` for each symbol of `old` that `new` lacks, in order.
pub open spec fn removed_events(old: Seq<SymbolInfo>, new: Seq<SymbolInfo>) -> Seq<WatchEvent>
    decreases old.len(),
{
    if old.len() == 0 {
        Seq::<WatchEvent>::empty()
    } else {
        let s = old.last();
        removed_events(old.drop_last(), new) + if has_symbol(new, s) {
            Seq::<WatchEvent>::empty()
        } else {
            seq![WatchEvent::SymbolRemoved { name: s.name, file: s.file }]
        }
    }
}

/// Two tests are the same when file and name agree.
pub open spec fn same_test(a: TypeTest, b: TypeTest) -> bool {
    a.file@ == b.file@ && a.test_name@ == b.test_name@
}

/// Index of the first test of `ts` that is the same as `t`.
pub open spec fn first_same_test(ts: Seq<TypeTest>, t: TypeTest) -> Option<int> {
    if exists|i: int| 0 <= i < ts.len() && same_test(#[trigger] ts[i], t) {
        Some(
            choose|i: int|
                0 <= i < ts.len() && same_test(#[trigger] ts[i], t) && forall|j: int|
                    0 <= j < i ==> !same_test(#[trigger] ts[j], t),
        )
    } else {
        None
    }
}

/// The events for one test of the new analysis against the old tests.
pub open spec fn test_events_for(old: Seq<TypeTest>, t: TypeTest) -> Seq<WatchEvent> {
    match first_same_test(old, t) {
        None => seq![WatchEvent::NewTestAdded { file: t.file, test: t.test_name }],
        Some(i) => {
            let o = old[i];
            if o.status == t.status {
                Seq::<WatchEvent>::empty()
            } else {
                seq![WatchEvent::TestStatusChanged { file: t.file, test: t.test_name, status: t.status }]
                    + if t.status == TestStatus::Failing {
                    seq![WatchEvent::NewFailingTest { file: t.file, test: t.test_name }]
                } else if t.status == TestStatus::Passing && o.status == TestStatus::Failing {
                    seq![WatchEvent::TestFixed { file: t.file, test: t.test_name }]
                } else {
                    Seq::<WatchEvent>::empty()
                }
            }
        },
    }
}

pub open spec fn test_events(old: Seq<TypeTest>, new: Seq<TypeTest>) -> Seq<WatchEvent>
    decreases new.len(),
{
    if new.len() == 0 {
        Seq::<WatchEvent>::empty()
    } else {
        test_events(old, new.drop_last()) + test_events_for(old, new.last())
    }
}

fn find_symbol(ss: &Vec<SymbolInfo>, s: &SymbolInfo) -> (r: bool)
    ensures
        r == has_symbol(ss@, *s),
{
    let mut i: usize = 0;
    while i < ss.len()
        invariant
            i <= ss@.len(),
            forall|j: int| 0 <= j < i ==> !same_symbol(#[trigger] ss@[j], *s),
        decreases ss@.len() - i,
    {
        if ss[i].name == s.name && ss[i].kind == s.kind && ss[i].file == s.file {
            assert(same_symbol(ss@[i as int], *s));
            return true;
        }
        i = i + 1;
    }
    false
}

fn find_test(ts: &Vec<TypeTest>, t: &TypeTest) -> (r: Option<usize>)
    ensures
        match r {
            Some(i) => i < ts@.len() && first_same_test(ts@, *t) == Some(i as int),
            None => first_same_test(ts@, *t) is None,
        },
{
    let mut i: usize = 0;
    while i < ts.len()
        invariant
            i <= ts@.len(),
            forall|j: int| 0 <= j < i ==> !same_test(#[trigger] ts@[j], *t),
        decreases ts@.len() - i,
    {
        if ts[i].file == t.file && ts[i].test_name == t.test_name {
            let ghost k = choose|k: int|
                0 <= k < ts@.len() && same_test(#[trigger] ts@[k], *t) && forall|j: int|
                    0 <= j < k ==> !same_test(#[trigger] ts@[j], *t);
            assert(same_test(ts@[i as int], *t));
            assert(k == i) by {
                if k < i {
                    assert(!same_test(ts@[k], *t));
                } else if k > i {
                    assert(!same_test(ts@[i as int], *t));
                }
            }
            return Some(i);
        }
        i = i + 1;
    }
    None
}

fn events_for_test(old_tests: &Vec<TypeTest>, t: &TypeTest) -> (r: Vec<WatchEvent>)
    ensures
        r@ == test_events_for(old_tests@, *t),
{
    let mut events: Vec<WatchEvent> = Vec::new();
    match find_test(old_tests, t) {
        Some(k) => {
            let o = &old_tests[k];
            if o.status != t.status {
                events.push(
                    WatchEvent::TestStatusChanged {
                        file: t.file.clone(),
                        test: t.test_name.clone(),
                        status: t.status,
                    },
                );
                if t.status == TestStatus::Failing {
                    events.push(
                        WatchEvent::NewFailingTest { file: t.file.clone(), test: t.test_name.clone() },
                    );
                } else if t.status == TestStatus::Passing && o.status == TestStatus::Failing {
                    events.push(WatchEvent::TestFixed { file: t.file.clone(), test: t.test_name.clone() });
                }
            }
        },
        None => {
            events.push(WatchEvent::NewTestAdded { file: t.file.clone(), test: t.test_name.clone() });
        },
    }
    assert(events@ =~= test_events_for(old_tests@, *t));
    events
}

/// The events that lead from an old analysis to a new one: added symbols,
/// then removed symbols, then test changes, each in the order of the
/// analysis they come from.
pub fn compute_diff(
    old_symbols: &Vec<SymbolInfo>,
    old_tests: &Vec<TypeTest>,
    new_symbols: &Vec<SymbolInfo>,
    new_tests: &Vec<TypeTest>,
) -> (r: Vec<WatchEvent>)
    ensures
        r@ == added_events(old_symbols@, new_symbols@) + removed_events(old_symbols@, new_symbols@)
            + test_events(old_tests@, new_tests@),
{
    let mut events: Vec<WatchEvent> = Vec::new();
    let mut i: usize = 0;
    while i < new_symbols.len()
        invariant
            i <= new_symbols@.len(),
            events@ == added_events(old_symbols@, new_symbols@.take(i as int)),
        decreases new_symbols@.len() - i,
    {
        let s = &new_symbols[i];
        if !find_symbol(old_symbols, s) {
            events.push(
                WatchEvent::SymbolAdded { name: s.name.clone(), kind: s.kind, file: s.file.clone() },
            );
        }
        i = i + 1;
        assert(new_symbols@.take(i as int).drop_last() =~= new_symbols@.take(i - 1));
    }
    assert(new_symbols@.take(i as int) =~= new_symbols@);
    let ghost added = events@;
    let mut i: usize = 0;
    while i < old_symbols.len()
        invariant
            i <= old_symbols@.len(),
            events@ == added + removed_events(old_symbols@.take(i as int), new_symbols@),
        decreases old_symbols@.len() - i,
    {
        let s = &old_symbols[i];
        if !find_symbol(new_symbols, s) {
            events.push(WatchEvent::SymbolRemoved { name: s.name.clone(), file: s.file.clone() });
        }
        i = i + 1;
        assert(old_symbols@.take(i as int).drop_last() =~= old_symbols@.take(i - 1));
    }
    assert(old_symbols@.take(i as int) =~= old_symbols@);
    let ghost before_tests = events@;
    let mut i: usize = 0;
    while i < new_tests.len()
        invariant
            i <= new_tests@.len(),
            events@ == before_tests + test_events(old_tests@, new_tests@.take(i as int)),
        decreases new_tests@.len() - i,
    {
        let mut more = events_for_test(old_tests, &new_tests[i]);
        events.append(&mut more);
        i = i + 1;
        assert(new_tests@.take(i as int).drop_last() =~= new_tests@.take(i - 1));
    }
    assert(new_tests@.take(i as int) =~= new_tests@);
    events
}

} // verus!
