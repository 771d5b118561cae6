//! The model of a resolution: what it means to resolve requested names
//! against a catalog.

use vstd::prelude::*;
use crate::resource::file_struct::YamlArtifact;
use crate::text::strip_leading_separators;

verus! {

/// What a resolution has gathered so far: the names already expanded, in the
/// order they were first met, and the patterns collected, without repeats.
pub struct ResolutionSet {
    pub visited: Seq<Seq<char>>,
    pub patterns: Seq<Seq<char>>,
}

/// The outcome of a resolution: the state it ended in, and the first
/// requested or referenced name that the catalog lacks, if there is one.
pub struct Resolution {
    pub state: ResolutionSet,
    pub missing: Option<Seq<char>>,
}

/// One piece of work a traversal still has to do.
pub enum Pending {
    /// Expand the entry of this name, unless it was expanded before.
    Visit(Seq<char>),
    /// Append these raw patterns, normalised, to the output.
    Emit(Seq<Seq<char>>),
}

/// The names of the catalog's entries, in catalog order.
pub open spec fn names_of(catalog: Seq<YamlArtifact>) -> Seq<Seq<char>> {
    catalog.map_values(|a: YamlArtifact| a.name())
}

/// The index of the first entry called `name`.
pub open spec fn entry_named(catalog: Seq<YamlArtifact>, name: Seq<char>) -> Option<int> {
    names_of(catalog).index_of_first(name)
}

/// `patterns` extended by each of `raw` in turn, normalised, skipping what is
/// already there.
pub open spec fn add_patterns(patterns: Seq<Seq<char>>, raw: Seq<Seq<char>>) -> Seq<Seq<char>>
    decreases raw.len(),
{
    if raw.len() == 0 {
        patterns
    } else {
        let p = strip_leading_separators(raw[0]);
        let next = if patterns.contains(p) {
            patterns
        } else {
            patterns.push(p)
        };
        add_patterns(next, raw.skip(1))
    }
}

/// A visit for each of `names`, in order.
pub open spec fn visits(names: Seq<Seq<char>>) -> Seq<Pending> {
    names.map_values(|n: Seq<char>| Pending::Visit(n))
}

/// How many catalog entries have a name that is not in `visited`. This is
/// what bounds a traversal: each expansion lowers it.
pub open spec fn unvisited(catalog: Seq<YamlArtifact>, visited: Seq<Seq<char>>) -> nat
    decreases catalog.len(),
{
    if catalog.len() == 0 {
        0
    } else {
        let rest = unvisited(catalog.drop_last(), visited);
        if visited.contains(catalog.last().name()) {
            rest
        } else {
            rest + 1
        }
    }
}

/// Marking the name of a catalog entry as visited lowers `unvisited`.
pub proof fn lemma_visit_lowers(
    catalog: Seq<YamlArtifact>,
    visited: Seq<Seq<char>>,
    name: Seq<char>,
    i: int,
)
    requires
        0 <= i < catalog.len(),
        catalog[i].name() == name,
        !visited.contains(name),
    ensures
        unvisited(catalog, visited.push(name)) < unvisited(catalog, visited),
    decreases catalog.len(),
{
    let more = visited.push(name);
    let front = catalog.drop_last();
    assert(more.last() == name);
    assert(more.contains(name));
    lemma_visit_never_raises(front, visited, name);
    if i < catalog.len() - 1 {
        lemma_visit_lowers(front, visited, name, i);
        if visited.contains(catalog.last().name()) {
            let k = choose|k: int| 0 <= k < visited.len() && visited[k] == catalog.last().name();
            assert(more[k] == catalog.last().name());
        }
    }
}

/// Marking any name as visited never raises `unvisited`.
pub proof fn lemma_visit_never_raises(
    catalog: Seq<YamlArtifact>,
    visited: Seq<Seq<char>>,
    name: Seq<char>,
)
    ensures
        unvisited(catalog, visited.push(name)) <= unvisited(catalog, visited),
    decreases catalog.len(),
{
    if catalog.len() > 0 {
        lemma_visit_never_raises(catalog.drop_last(), visited, name);
        if visited.contains(catalog.last().name()) {
            let k = choose|k: int| 0 <= k < visited.len() && visited[k] == catalog.last().name();
            assert(visited.push(name)[k] == catalog.last().name());
        }
    }
}

/// The traversal itself. The work at the front of `stack` is done first:
/// a visit of a name seen before is dropped; a visit of a name the catalog
/// lacks ends the traversal with that name; any other visit marks the name
/// and puts the entry's members, then its own patterns, in front of the
/// remaining work. This is a depth-first walk of the group graph in
/// declaration order, and it ends because every expansion lowers `unvisited`.
pub open spec fn run(catalog: Seq<YamlArtifact>, stack: Seq<Pending>, st: ResolutionSet) -> Resolution
    decreases unvisited(catalog, st.visited), stack.len(),
{
    if stack.len() == 0 {
        Resolution { state: st, missing: None }
    } else {
        let rest = stack.skip(1);
        match stack[0] {
            Pending::Emit(raw) => run(
                catalog,
                rest,
                ResolutionSet { visited: st.visited, patterns: add_patterns(st.patterns, raw) },
            ),
            Pending::Visit(name) => if st.visited.contains(name) {
                run(catalog, rest, st)
            } else {
                match entry_named(catalog, name) {
                    None => Resolution { state: st, missing: Some(name) },
                    Some(i) => {
                        proof {
                            names_of(catalog).index_of_first_ensures(name);
                            lemma_visit_lowers(catalog, st.visited, name, i);
                        }
                        run(
                            catalog,
                            visits(catalog[i].members()) + seq![Pending::Emit(catalog[i].patterns())]
                                + rest,
                            ResolutionSet { visited: st.visited.push(name), patterns: st.patterns },
                        )
                    },
                }
            },
        }
    }
}

/// The resolution of `request` against `catalog`, starting from nothing.
pub open spec fn resolve(catalog: Seq<YamlArtifact>, request: Seq<Seq<char>>) -> Resolution {
    run(
        catalog,
        visits(request),
        ResolutionSet { visited: Seq::empty(), patterns: Seq::empty() },
    )
}

} // verus!
