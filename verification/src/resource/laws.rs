//! What holds of every resolution: it yields exactly the patterns that the
//! request reaches, each once, and it reports a name that is missing.

use vstd::prelude::*;
use crate::resource::file_struct::YamlArtifact;
use crate::resource::resolution::{
    add_patterns, entry_named, lemma_visit_lowers, names_of, resolve, run, unvisited, visits,
    Pending, ResolutionSet,
};
use crate::text::strip_leading_separators;

verus! {

/// `chain` walks down the group graph from a requested name: it starts at
/// one, and each further name is a member of the entry the name before it
/// is looked up to.
pub open spec fn is_expansion_chain(
    catalog: Seq<YamlArtifact>,
    request: Seq<Seq<char>>,
    chain: Seq<Seq<char>>,
) -> bool {
    &&& chain.len() > 0
    &&& request.contains(chain[0])
    &&& forall|k: int|
        0 <= k < chain.len() - 1 ==> is_member(catalog, #[trigger] chain[k], chain[k + 1])
}

/// `child` is named by the entry that `parent` is looked up to.
pub open spec fn is_member(catalog: Seq<YamlArtifact>, parent: Seq<char>, child: Seq<char>) -> bool {
    match entry_named(catalog, parent) {
        Some(i) => catalog[i].members().contains(child),
        None => false,
    }
}

/// `name` is requested, or is reached from a requested name through groups.
pub open spec fn reachable(catalog: Seq<YamlArtifact>, request: Seq<Seq<char>>, name: Seq<char>) -> bool {
    exists|chain: Seq<Seq<char>>| #[trigger]
        is_expansion_chain(catalog, request, chain) && chain.last() == name
}

/// `pattern` is the normal form of a pattern that the entry called `name`
/// carries.
pub open spec fn is_pattern_of(catalog: Seq<YamlArtifact>, name: Seq<char>, pattern: Seq<char>) -> bool {
    match entry_named(catalog, name) {
        Some(i) => exists|k: int|
            0 <= k < catalog[i].patterns().len() && pattern == strip_leading_separators(
                #[trigger] catalog[i].patterns()[k],
            ),
        None => false,
    }
}

/// `pattern` is carried by an entry that the request reaches.
pub open spec fn derived(catalog: Seq<YamlArtifact>, request: Seq<Seq<char>>, pattern: Seq<char>) -> bool {
    exists|name: Seq<char>| #[trigger]
        reachable(catalog, request, name) && is_pattern_of(catalog, name, pattern)
}

/// Every pattern of `patterns` is derived, and none occurs twice.
pub open spec fn patterns_sound(
    catalog: Seq<YamlArtifact>,
    request: Seq<Seq<char>>,
    patterns: Seq<Seq<char>>,
) -> bool {
    &&& patterns.no_duplicates()
    &&& forall|k: int| 0 <= k < patterns.len() ==> derived(catalog, request, #[trigger] patterns[k])
}

/// Every raw pattern of `raw` is derived once normalised.
pub open spec fn raw_sound(catalog: Seq<YamlArtifact>, request: Seq<Seq<char>>, raw: Seq<Seq<char>>) -> bool {
    forall|k: int|
        0 <= k < raw.len() ==> derived(catalog, request, strip_leading_separators(#[trigger] raw[k]))
}

/// Every piece of pending work concerns a reachable name.
pub open spec fn work_sound(catalog: Seq<YamlArtifact>, request: Seq<Seq<char>>, stack: Seq<Pending>) -> bool {
    forall|k: int|
        0 <= k < stack.len() ==> match #[trigger] stack[k] {
            Pending::Visit(name) => reachable(catalog, request, name),
            Pending::Emit(raw) => raw_sound(catalog, request, raw),
        }
}

proof fn lemma_add_patterns_sound(
    catalog: Seq<YamlArtifact>,
    request: Seq<Seq<char>>,
    patterns: Seq<Seq<char>>,
    raw: Seq<Seq<char>>,
)
    requires
        patterns_sound(catalog, request, patterns),
        raw_sound(catalog, request, raw),
    ensures
        patterns_sound(catalog, request, add_patterns(patterns, raw)),
    decreases raw.len(),
{
    if raw.len() > 0 {
        let p = strip_leading_separators(raw[0]);
        let next = if patterns.contains(p) {
            patterns
        } else {
            patterns.push(p)
        };
        assert(derived(catalog, request, p));
        assert(raw_sound(catalog, request, raw.skip(1))) by {
            assert forall|k: int| 0 <= k < raw.skip(1).len() implies derived(
                catalog,
                request,
                strip_leading_separators(#[trigger] raw.skip(1)[k]),
            ) by {
                assert(raw.skip(1)[k] == raw[k + 1]);
            }
        }
        lemma_add_patterns_sound(catalog, request, next, raw.skip(1));
    }
}

proof fn lemma_member_reachable(
    catalog: Seq<YamlArtifact>,
    request: Seq<Seq<char>>,
    parent: Seq<char>,
    child: Seq<char>,
)
    requires
        reachable(catalog, request, parent),
        is_member(catalog, parent, child),
    ensures
        reachable(catalog, request, child),
{
    let chain = choose|chain: Seq<Seq<char>>| #[trigger]
        is_expansion_chain(catalog, request, chain) && chain.last() == parent;
    let longer = chain.push(child);
    assert forall|k: int| 0 <= k < longer.len() - 1 implies is_member(
        catalog,
        #[trigger] longer[k],
        longer[k + 1],
    ) by {
        if k < chain.len() - 1 {
            assert(longer[k] == chain[k]);
            assert(longer[k + 1] == chain[k + 1]);
        }
    }
    assert(longer[0] == chain[0]);
    assert(is_expansion_chain(catalog, request, longer));
    assert(longer.last() == child);
}

proof fn lemma_run_sound(
    catalog: Seq<YamlArtifact>,
    request: Seq<Seq<char>>,
    stack: Seq<Pending>,
    st: ResolutionSet,
)
    requires
        work_sound(catalog, request, stack),
        patterns_sound(catalog, request, st.patterns),
    ensures
        patterns_sound(catalog, request, run(catalog, stack, st).state.patterns),
    decreases unvisited(catalog, st.visited), stack.len(),
{
    if stack.len() > 0 {
        let rest = stack.skip(1);
        assert(work_sound(catalog, request, rest)) by {
            assert forall|k: int| 0 <= k < rest.len() implies match #[trigger] rest[k] {
                Pending::Visit(name) => reachable(catalog, request, name),
                Pending::Emit(raw) => raw_sound(catalog, request, raw),
            } by {
                assert(rest[k] == stack[k + 1]);
            }
        }
        match stack[0] {
            Pending::Emit(raw) => {
                lemma_add_patterns_sound(catalog, request, st.patterns, raw);
                lemma_run_sound(
                    catalog,
                    request,
                    rest,
                    ResolutionSet { visited: st.visited, patterns: add_patterns(st.patterns, raw) },
                );
            },
            Pending::Visit(name) => {
                if st.visited.contains(name) {
                    lemma_run_sound(catalog, request, rest, st);
                } else {
                    match entry_named(catalog, name) {
                        None => {},
                        Some(i) => {
                            names_of(catalog).index_of_first_ensures(name);
                            lemma_visit_lowers(catalog, st.visited, name, i);
                            let entry = catalog[i];
                            let next = visits(entry.members()) + seq![Pending::Emit(entry.patterns())]
                                + rest;
                            assert(reachable(catalog, request, name));
                            assert forall|k: int| 0 <= k < next.len() implies match #[trigger] next[k] {
                                Pending::Visit(n) => reachable(catalog, request, n),
                                Pending::Emit(raw) => raw_sound(catalog, request, raw),
                            } by {
                                let m = entry.members().len() as int;
                                if k < m {
                                    let child = entry.members()[k];
                                    assert(next[k] == Pending::Visit(child));
                                    assert(entry.members().contains(child));
                                    lemma_member_reachable(catalog, request, name, child);
                                } else if k == m {
                                    assert(next[k] == Pending::Emit(entry.patterns()));
                                    assert forall|j: int|
                                        0 <= j < entry.patterns().len() implies derived(
                                        catalog,
                                        request,
                                        strip_leading_separators(#[trigger] entry.patterns()[j]),
                                    ) by {
                                        assert(is_pattern_of(
                                            catalog,
                                            name,
                                            strip_leading_separators(entry.patterns()[j]),
                                        ));
                                    }
                                } else {
                                    assert(next[k] == rest[k - m - 1]);
                                }
                            }
                            lemma_run_sound(
                                catalog,
                                request,
                                next,
                                ResolutionSet { visited: st.visited.push(name), patterns: st.patterns },
                            );
                        },
                    }
                }
            },
        }
    }
}

/// Whatever is requested of whatever catalog, group cycles included, the
/// resolution is defined, every pattern it yields is carried by an entry
/// that the request reaches through groups, and no pattern is yielded twice.
pub proof fn lemma_resolution_sound(catalog: Seq<YamlArtifact>, request: Seq<Seq<char>>)
    ensures
        resolve(catalog, request).state.patterns.no_duplicates(),
        forall|p: Seq<char>| #[trigger]
            resolve(catalog, request).state.patterns.contains(p) ==> derived(catalog, request, p),
{
    let start = ResolutionSet { visited: Seq::empty(), patterns: Seq::empty() };
    assert forall|k: int| 0 <= k < visits(request).len() implies match #[trigger] visits(request)[k] {
        Pending::Visit(name) => reachable(catalog, request, name),
        Pending::Emit(raw) => raw_sound(catalog, request, raw),
    } by {
        let chain = seq![request[k]];
        assert(chain[0] == request[k]);
        assert(is_expansion_chain(catalog, request, chain));
        assert(chain.last() == request[k]);
    }
    lemma_run_sound(catalog, request, visits(request), start);
}

/// Every visited name is the name of a catalog entry.
pub open spec fn all_known(catalog: Seq<YamlArtifact>, visited: Seq<Seq<char>>) -> bool {
    forall|k: int| 0 <= k < visited.len() ==> names_of(catalog).contains(#[trigger] visited[k])
}

/// A name that a traversal reports as missing is the name of no entry.
pub proof fn lemma_missing_is_absent(catalog: Seq<YamlArtifact>, stack: Seq<Pending>, st: ResolutionSet)
    ensures
        match run(catalog, stack, st).missing {
            Some(name) => !names_of(catalog).contains(name),
            None => true,
        },
    decreases unvisited(catalog, st.visited), stack.len(),
{
    if stack.len() > 0 {
        let rest = stack.skip(1);
        match stack[0] {
            Pending::Emit(raw) => {
                lemma_missing_is_absent(
                    catalog,
                    rest,
                    ResolutionSet { visited: st.visited, patterns: add_patterns(st.patterns, raw) },
                );
            },
            Pending::Visit(name) => {
                names_of(catalog).index_of_first_ensures(name);
                if st.visited.contains(name) {
                    lemma_missing_is_absent(catalog, rest, st);
                } else {
                    match entry_named(catalog, name) {
                        None => {},
                        Some(i) => {
                            lemma_visit_lowers(catalog, st.visited, name, i);
                            lemma_missing_is_absent(
                                catalog,
                                visits(catalog[i].members()) + seq![
                                    Pending::Emit(catalog[i].patterns()),
                                ] + rest,
                                ResolutionSet { visited: st.visited.push(name), patterns: st.patterns },
                            );
                        },
                    }
                }
            },
        }
    }
}

/// A traversal that still has to visit a name of no entry reports a
/// missing name.
proof fn lemma_run_reports_absent(
    catalog: Seq<YamlArtifact>,
    stack: Seq<Pending>,
    st: ResolutionSet,
    at: int,
    absent: Seq<char>,
)
    requires
        all_known(catalog, st.visited),
        0 <= at < stack.len(),
        stack[at] == Pending::Visit(absent),
        !names_of(catalog).contains(absent),
    ensures
        run(catalog, stack, st).missing is Some,
        at == 0 ==> run(catalog, stack, st).missing == Some(absent),
    decreases unvisited(catalog, st.visited), stack.len(),
{
    let rest = stack.skip(1);
    if at > 0 {
        assert(rest[at - 1] == stack[at]);
    }
    match stack[0] {
        Pending::Emit(raw) => {
            lemma_run_reports_absent(
                catalog,
                rest,
                ResolutionSet { visited: st.visited, patterns: add_patterns(st.patterns, raw) },
                at - 1,
                absent,
            );
        },
        Pending::Visit(name) => {
            names_of(catalog).index_of_first_ensures(name);
            if st.visited.contains(name) {
                if at == 0 {
                    let k = choose|k: int| 0 <= k < st.visited.len() && st.visited[k] == name;
                    assert(names_of(catalog).contains(st.visited[k]));
                } else {
                    lemma_run_reports_absent(catalog, rest, st, at - 1, absent);
                }
            } else {
                match entry_named(catalog, name) {
                    None => {},
                    Some(i) => {
                        lemma_visit_lowers(catalog, st.visited, name, i);
                        let more = st.visited.push(name);
                        let front = visits(catalog[i].members()) + seq![
                            Pending::Emit(catalog[i].patterns()),
                        ];
                        assert forall|k: int| 0 <= k < more.len() implies names_of(catalog).contains(
                            #[trigger] more[k],
                        ) by {
                            if k < st.visited.len() {
                                assert(more[k] == st.visited[k]);
                            }
                        }
                        assert((front + rest)[front.len() + at - 1] == stack[at]);
                        lemma_run_reports_absent(
                            catalog,
                            front + rest,
                            ResolutionSet { visited: more, patterns: st.patterns },
                            front.len() + at - 1,
                            absent,
                        );
                    },
                }
            }
        },
    }
}

/// A request that holds a name of no catalog entry is refused: the
/// resolution reports a missing name, which is itself the name of no entry,
/// and which is the requested name where that one comes first.
pub proof fn lemma_absent_name_is_reported(
    catalog: Seq<YamlArtifact>,
    request: Seq<Seq<char>>,
    at: int,
)
    requires
        0 <= at < request.len(),
        !names_of(catalog).contains(request[at]),
    ensures
        resolve(catalog, request).missing is Some,
        !names_of(catalog).contains(resolve(catalog, request).missing->0),
        at == 0 ==> resolve(catalog, request).missing == Some(request[0]),
{
    let start = ResolutionSet { visited: Seq::empty(), patterns: Seq::empty() };
    lemma_run_reports_absent(catalog, visits(request), start, at, request[at]);
    lemma_missing_is_absent(catalog, visits(request), start);
}

/// Every raw pattern of `raw` is among `patterns` once normalised.
pub open spec fn all_added(raw: Seq<Seq<char>>, patterns: Seq<Seq<char>>) -> bool {
    forall|k: int| 0 <= k < raw.len() ==> patterns.contains(strip_leading_separators(#[trigger] raw[k]))
}

/// Every one of `members` is visited or waits on the stack.
pub open spec fn members_accounted(
    members: Seq<Seq<char>>,
    visited: Seq<Seq<char>>,
    stack: Seq<Pending>,
) -> bool {
    forall|k: int|
        0 <= k < members.len() ==> visited.contains(#[trigger] members[k]) || stack.contains(
            Pending::Visit(members[k]),
        )
}

/// What the entry called `name` refers to is visited or added, or waits on
/// the stack.
pub open spec fn accounted(
    catalog: Seq<YamlArtifact>,
    st: ResolutionSet,
    stack: Seq<Pending>,
    name: Seq<char>,
) -> bool {
    match entry_named(catalog, name) {
        Some(i) => members_accounted(catalog[i].members(), st.visited, stack) && (stack.contains(
            Pending::Emit(catalog[i].patterns()),
        ) || all_added(catalog[i].patterns(), st.patterns)),
        None => true,
    }
}

/// What every visited entry refers to is accounted for.
pub open spec fn closed_under(catalog: Seq<YamlArtifact>, st: ResolutionSet, stack: Seq<Pending>) -> bool {
    forall|k: int| 0 <= k < st.visited.len() ==> accounted(catalog, st, stack, #[trigger] st.visited[k])
}

/// Every element of `inner` is one of `outer`.
pub open spec fn within(inner: Seq<Seq<char>>, outer: Seq<Seq<char>>) -> bool {
    forall|k: int| 0 <= k < inner.len() ==> outer.contains(#[trigger] inner[k])
}

/// The work of `stack` is done in the state `end`.
pub open spec fn work_done(stack: Seq<Pending>, end: ResolutionSet) -> bool {
    forall|k: int|
        0 <= k < stack.len() ==> match #[trigger] stack[k] {
            Pending::Visit(name) => end.visited.contains(name),
            Pending::Emit(raw) => all_added(raw, end.patterns),
        }
}

proof fn lemma_add_patterns_grows(patterns: Seq<Seq<char>>, raw: Seq<Seq<char>>)
    ensures
        within(patterns, add_patterns(patterns, raw)),
        all_added(raw, add_patterns(patterns, raw)),
    decreases raw.len(),
{
    if raw.len() > 0 {
        let p = strip_leading_separators(raw[0]);
        let next = if patterns.contains(p) {
            patterns
        } else {
            patterns.push(p)
        };
        lemma_add_patterns_grows(next, raw.skip(1));
        let end = add_patterns(patterns, raw);
        assert(next.contains(p)) by {
            if !patterns.contains(p) {
                assert(next[patterns.len() as int] == p);
            }
        }
        assert forall|k: int| 0 <= k < patterns.len() implies end.contains(#[trigger] patterns[k]) by {
            assert(next[k] == patterns[k]);
        }
        assert forall|k: int| 0 <= k < raw.len() implies end.contains(
            strip_leading_separators(#[trigger] raw[k]),
        ) by {
            if k == 0 {
                let at = choose|at: int| 0 <= at < next.len() && next[at] == p;
                assert(end.contains(next[at]));
            } else {
                assert(raw.skip(1)[k - 1] == raw[k]);
            }
        }
    }
}

proof fn lemma_within_transitive(a: Seq<Seq<char>>, b: Seq<Seq<char>>, c: Seq<Seq<char>>)
    requires
        within(a, b),
        within(b, c),
    ensures
        within(a, c),
{
    assert forall|k: int| 0 <= k < a.len() implies c.contains(#[trigger] a[k]) by {
        let at = choose|at: int| 0 <= at < b.len() && b[at] == a[k];
        assert(c.contains(b[at]));
    }
}

proof fn lemma_all_added_grows(raw: Seq<Seq<char>>, patterns: Seq<Seq<char>>, more: Seq<Seq<char>>)
    requires
        all_added(raw, patterns),
        within(patterns, more),
    ensures
        all_added(raw, more),
{
    assert forall|k: int| 0 <= k < raw.len() implies more.contains(
        strip_leading_separators(#[trigger] raw[k]),
    ) by {
        let p = strip_leading_separators(raw[k]);
        let at = choose|at: int| 0 <= at < patterns.len() && patterns[at] == p;
        assert(more.contains(patterns[at]));
    }
}

/// A traversal that misses no name leaves nothing undone: what was
/// visited and added stays so, the work on the stack is done, and what
/// every visited entry refers to is visited or added.
proof fn lemma_run_complete(catalog: Seq<YamlArtifact>, stack: Seq<Pending>, st: ResolutionSet)
    requires
        closed_under(catalog, st, stack),
        run(catalog, stack, st).missing is None,
    ensures
        within(st.visited, run(catalog, stack, st).state.visited),
        within(st.patterns, run(catalog, stack, st).state.patterns),
        work_done(stack, run(catalog, stack, st).state),
        closed_under(catalog, run(catalog, stack, st).state, Seq::empty()),
    decreases unvisited(catalog, st.visited), stack.len(),
{
    let end = run(catalog, stack, st).state;
    if stack.len() == 0 {
        assert forall|k: int| 0 <= k < st.visited.len() implies end.visited.contains(
            #[trigger] st.visited[k],
        ) by {}
        assert forall|k: int| 0 <= k < st.patterns.len() implies end.patterns.contains(
            #[trigger] st.patterns[k],
        ) by {}
        assert(stack =~= Seq::<Pending>::empty());
    } else {
        let rest = stack.skip(1);
        assert forall|item: Pending| stack.contains(item) && item != stack[0] implies rest.contains(
            item,
        ) by {
            let at = choose|at: int| 0 <= at < stack.len() && stack[at] == item;
            assert(rest[at - 1] == item);
        }
        match stack[0] {
            Pending::Emit(raw) => {
                let next = ResolutionSet {
                    visited: st.visited,
                    patterns: add_patterns(st.patterns, raw),
                };
                lemma_add_patterns_grows(st.patterns, raw);
                assert forall|k: int| 0 <= k < next.visited.len() implies accounted(
                    catalog,
                    next,
                    rest,
                    #[trigger] next.visited[k],
                ) by {
                    let v = st.visited[k];
                    assert(accounted(catalog, st, stack, v));
                    match entry_named(catalog, v) {
                        Some(i) => {
                            let entry = catalog[i];
                            assert forall|j: int| 0 <= j < entry.members().len() implies (
                            next.visited.contains(#[trigger] entry.members()[j]) || rest.contains(
                                Pending::Visit(entry.members()[j]),
                            )) by {}
                            if stack.contains(Pending::Emit(entry.patterns())) {
                                if Pending::Emit(entry.patterns()) == stack[0] {
                                    assert(all_added(entry.patterns(), next.patterns));
                                }
                            } else {
                                lemma_all_added_grows(entry.patterns(), st.patterns, next.patterns);
                            }
                        },
                        None => {},
                    }
                }
                lemma_run_complete(catalog, rest, next);
                lemma_within_transitive(st.patterns, next.patterns, end.patterns);
                assert forall|k: int| 0 <= k < stack.len() implies match #[trigger] stack[k] {
                    Pending::Visit(name) => end.visited.contains(name),
                    Pending::Emit(r) => all_added(r, end.patterns),
                } by {
                    if k == 0 {
                        lemma_all_added_grows(raw, next.patterns, end.patterns);
                    } else {
                        assert(rest[k - 1] == stack[k]);
                    }
                }
            },
            Pending::Visit(name) => {
                names_of(catalog).index_of_first_ensures(name);
                if st.visited.contains(name) {
                    assert forall|k: int| 0 <= k < st.visited.len() implies accounted(
                        catalog,
                        st,
                        rest,
                        #[trigger] st.visited[k],
                    ) by {
                        let v = st.visited[k];
                        assert(accounted(catalog, st, stack, v));
                        match entry_named(catalog, v) {
                            Some(i) => {
                                let entry = catalog[i];
                                assert forall|j: int| 0 <= j < entry.members().len() implies (
                                st.visited.contains(#[trigger] entry.members()[j]) || rest.contains(
                                    Pending::Visit(entry.members()[j]),
                                )) by {}
                            },
                            None => {},
                        }
                    }
                    lemma_run_complete(catalog, rest, st);
                    assert forall|k: int| 0 <= k < stack.len() implies match #[trigger] stack[k] {
                        Pending::Visit(n) => end.visited.contains(n),
                        Pending::Emit(r) => all_added(r, end.patterns),
                    } by {
                        if k == 0 {
                            let at = choose|at: int|
                                0 <= at < st.visited.len() && st.visited[at] == name;
                            assert(end.visited.contains(st.visited[at]));
                        } else {
                            assert(rest[k - 1] == stack[k]);
                        }
                    }
                } else {
                    match entry_named(catalog, name) {
                        None => {},
                        Some(i) => {
                            lemma_visit_lowers(catalog, st.visited, name, i);
                            let entry = catalog[i];
                            let front = visits(entry.members()) + seq![
                                Pending::Emit(entry.patterns()),
                            ];
                            let work = front + rest;
                            let next = ResolutionSet {
                                visited: st.visited.push(name),
                                patterns: st.patterns,
                            };
                            assert(work =~= visits(entry.members()) + seq![
                                Pending::Emit(entry.patterns()),
                            ] + rest);
                            assert(next.visited.last() == name);
                            assert(next.visited.contains(name));
                            assert forall|item: Pending| rest.contains(item) implies work.contains(
                                item,
                            ) by {
                                let at = choose|at: int| 0 <= at < rest.len() && rest[at] == item;
                                assert(work[front.len() + at] == item);
                            }
                            assert(work.contains(Pending::Emit(entry.patterns()))) by {
                                assert(work[entry.members().len() as int] == Pending::Emit(
                                    entry.patterns(),
                                ));
                            }
                            assert forall|j: int| 0 <= j < entry.members().len() implies work.contains(
                                Pending::Visit(#[trigger] entry.members()[j]),
                            ) by {
                                assert(work[j] == Pending::Visit(entry.members()[j]));
                            }
                            assert forall|k: int| 0 <= k < next.visited.len() implies accounted(
                                catalog,
                                next,
                                work,
                                #[trigger] next.visited[k],
                            ) by {
                                let v = next.visited[k];
                                if k < st.visited.len() {
                                    assert(v == st.visited[k]);
                                    assert(accounted(catalog, st, stack, v));
                                    match entry_named(catalog, v) {
                                        Some(at) => {
                                            let other = catalog[at];
                                            assert forall|j: int|
                                                0 <= j < other.members().len() implies (
                                            next.visited.contains(#[trigger] other.members()[j])
                                                || work.contains(
                                                Pending::Visit(other.members()[j]),
                                            )) by {
                                                let m = other.members()[j];
                                                if st.visited.contains(m) {
                                                    let w = choose|w: int|
                                                        0 <= w < st.visited.len() && st.visited[w]
                                                            == m;
                                                    assert(next.visited[w] == m);
                                                } else if Pending::Visit(m) == stack[0] {
                                                } else {
                                                    assert(rest.contains(Pending::Visit(m)));
                                                }
                                            }
                                            if stack.contains(Pending::Emit(other.patterns())) {
                                                assert(rest.contains(
                                                    Pending::Emit(other.patterns()),
                                                ));
                                            }
                                        },
                                        None => {},
                                    }
                                } else {
                                    assert(v == name);
                                    assert forall|j: int|
                                        0 <= j < entry.members().len() implies (
                                    next.visited.contains(#[trigger] entry.members()[j])
                                        || work.contains(Pending::Visit(entry.members()[j]))) by {}
                                }
                            }
                            lemma_run_complete(catalog, work, next);
                            assert forall|k: int| 0 <= k < st.visited.len() implies end.visited.contains(
                                #[trigger] st.visited[k],
                            ) by {
                                assert(next.visited[k] == st.visited[k]);
                            }
                            assert forall|k: int| 0 <= k < stack.len() implies match #[trigger] stack[k] {
                                Pending::Visit(n) => end.visited.contains(n),
                                Pending::Emit(r) => all_added(r, end.patterns),
                            } by {
                                if k == 0 {
                                    assert(end.visited.contains(next.visited[st.visited.len() as int]));
                                } else {
                                    assert(rest[k - 1] == stack[k]);
                                    assert(work[front.len() + k - 1] == stack[k]);
                                }
                            }
                        },
                    }
                }
            },
        }
    }
}

/// In a state where what every visited entry refers to is visited, every
/// name of a chain that starts at a visited name is visited.
proof fn lemma_chain_visited(
    catalog: Seq<YamlArtifact>,
    request: Seq<Seq<char>>,
    end: ResolutionSet,
    chain: Seq<Seq<char>>,
    upto: int,
)
    requires
        closed_under(catalog, end, Seq::empty()),
        within(request, end.visited),
        is_expansion_chain(catalog, request, chain),
        0 <= upto < chain.len(),
    ensures
        end.visited.contains(chain[upto]),
    decreases upto,
{
    if upto == 0 {
        let at = choose|at: int| 0 <= at < request.len() && request[at] == chain[0];
        assert(end.visited.contains(request[at]));
    } else {
        lemma_chain_visited(catalog, request, end, chain, upto - 1);
        let parent = chain[upto - 1];
        let child = chain[upto];
        assert(is_member(catalog, parent, child));
        let at = choose|at: int| 0 <= at < end.visited.len() && end.visited[at] == parent;
        assert(accounted(catalog, end, Seq::empty(), end.visited[at]));
        match entry_named(catalog, parent) {
            Some(i) => {
                let j = choose|j: int|
                    0 <= j < catalog[i].members().len() && catalog[i].members()[j] == child;
                assert(end.visited.contains(catalog[i].members()[j]) || Seq::<Pending>::empty().contains(
                    Pending::Visit(catalog[i].members()[j]),
                ));
            },
            None => {},
        }
    }
}

/// A resolution that misses no name yields exactly the patterns of the
/// entries the request reaches through groups: none is left out, none is
/// made up, and none comes twice.
pub proof fn lemma_resolution_complete(catalog: Seq<YamlArtifact>, request: Seq<Seq<char>>)
    requires
        resolve(catalog, request).missing is None,
    ensures
        resolve(catalog, request).state.patterns.no_duplicates(),
        forall|p: Seq<char>| #[trigger]
            resolve(catalog, request).state.patterns.contains(p) <==> derived(catalog, request, p),
{
    let start = ResolutionSet { visited: Seq::empty(), patterns: Seq::empty() };
    let end = resolve(catalog, request).state;
    lemma_resolution_sound(catalog, request);
    lemma_run_complete(catalog, visits(request), start);
    assert forall|k: int| 0 <= k < request.len() implies end.visited.contains(#[trigger] request[k]) by {
        assert(visits(request)[k] == Pending::Visit(request[k]));
    }
    assert forall|p: Seq<char>| derived(catalog, request, p) implies #[trigger] end.patterns.contains(
        p,
    ) by {
        let name = choose|name: Seq<char>| #[trigger]
            reachable(catalog, request, name) && is_pattern_of(catalog, name, p);
        let chain = choose|chain: Seq<Seq<char>>| #[trigger]
            is_expansion_chain(catalog, request, chain) && chain.last() == name;
        lemma_chain_visited(catalog, request, end, chain, chain.len() - 1);
        let at = choose|at: int| 0 <= at < end.visited.len() && end.visited[at] == name;
        assert(accounted(catalog, end, Seq::empty(), end.visited[at]));
        match entry_named(catalog, name) {
            Some(i) => {
                let k = choose|k: int|
                    0 <= k < catalog[i].patterns().len() && p == strip_leading_separators(
                        #[trigger] catalog[i].patterns()[k],
                    );
                assert(!Seq::<Pending>::empty().contains(Pending::Emit(catalog[i].patterns())));
                assert(end.patterns.contains(strip_leading_separators(catalog[i].patterns()[k])));
            },
            None => {},
        }
    }
}

} // verus!
