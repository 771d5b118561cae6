//! Resolution of requested artifact names into path patterns, and the
//! loading of a catalog from parsed definitions.

use vstd::prelude::*;
use crate::error::CollectorError;
use crate::resource::category::CategoryIndex;
use crate::resource::file_struct::{Target, YamlArtifact};
use crate::resource::resolution::{
    add_patterns, entry_named, lemma_visit_lowers, names_of, resolve, run, unvisited, visits,
    Pending, ResolutionSet,
};
use crate::text::{
    clone_texts, contains_text, join_path, strip_leading_separators, strip_separators, texts,
};
use crate::utils::FormatSource;

verus! {

/// One piece of work on the executable stack. An `Emit` refers to its catalog
/// entry by index.
enum WorkItem {
    Visit(String),
    Emit(usize),
}

impl WorkItem {
    spec fn pending(self, catalog: Seq<YamlArtifact>) -> Pending {
        match self {
            WorkItem::Visit(name) => Pending::Visit(name@),
            WorkItem::Emit(i) => Pending::Emit(catalog[i as int].patterns()),
        }
    }

    spec fn in_catalog(self, catalog: Seq<YamlArtifact>) -> bool {
        match self {
            WorkItem::Visit(_) => true,
            WorkItem::Emit(i) => i < catalog.len(),
        }
    }
}

/// The work an executable stack stands for. The last item pushed is the
/// first to be done.
spec fn pending_of(catalog: Seq<YamlArtifact>, items: Seq<WorkItem>) -> Seq<Pending>
    decreases items.len(),
{
    if items.len() == 0 {
        Seq::empty()
    } else {
        seq![items.last().pending(catalog)] + pending_of(catalog, items.drop_last())
    }
}

proof fn lemma_pending_push(catalog: Seq<YamlArtifact>, items: Seq<WorkItem>, item: WorkItem)
    ensures
        pending_of(catalog, items.push(item)) == seq![item.pending(catalog)] + pending_of(
            catalog,
            items,
        ),
{
    assert(items.push(item).drop_last() =~= items);
}

/// The index of the first entry called `name`.
fn find_entry(catalog: &[YamlArtifact], name: &String) -> (r: Option<usize>)
    ensures
        match r {
            Some(i) => i < catalog@.len() && entry_named(catalog@, name@) == Some(i as int),
            None => entry_named(catalog@, name@) is None,
        },
{
    let mut i: usize = 0;
    proof {
        names_of(catalog@).index_of_first_ensures(name@);
    }
    while i < catalog.len()
        invariant
            i <= catalog@.len(),
            forall|j: int| 0 <= j < i ==> names_of(catalog@)[j] != name@,
        decreases catalog@.len() - i,
    {
        if catalog[i].metadata.name == *name {
            proof {
                assert(names_of(catalog@)[i as int] == name@);
                names_of(catalog@).index_of_first_ensures(name@);
            }
            return Some(i);
        }
        i += 1;
    }
    proof {
        names_of(catalog@).index_of_first_ensures(name@);
        if names_of(catalog@).contains(name@) {
            let k = choose|k: int| 0 <= k < names_of(catalog@).len() && names_of(catalog@)[k] == name@;
            assert(names_of(catalog@)[k] != name@);
        }
    }
    None
}

/// Resolves requests against a catalog of artifact definitions.
#[derive(Clone, Debug)]
pub struct ResourcesParser {
    resource_path: FormatSource,
    artifact_patterns: Vec<String>,
    processed_artifacts: Vec<String>,
}

impl ResourcesParser {
    /// The names expanded and the patterns gathered by the resolution in
    /// progress, or by the last one.
    pub closed spec fn state(&self) -> ResolutionSet {
        ResolutionSet {
            visited: texts(self.processed_artifacts@),
            patterns: texts(self.artifact_patterns@),
        }
    }

    /// The pattern that finds the definition files.
    pub closed spec fn resource_pattern(&self) -> Seq<char> {
        self.resource_path@
    }

    /// Appends each of `raw`, normalised, to the gathered patterns unless it
    /// is there already.
    fn add_paths(&mut self, raw: &Vec<String>)
        ensures
            final(self).state().patterns == add_patterns(old(self).state().patterns, texts(raw@)),
            final(self).state().visited == old(self).state().visited,
            final(self).resource_pattern() == old(self).resource_pattern(),
    {
        let mut i: usize = 0;
        assert(texts(raw@).skip(0) =~= texts(raw@));
        while i < raw.len()
            invariant
                i <= raw.len(),
                add_patterns(texts(self.artifact_patterns@), texts(raw@).skip(i as int))
                    == add_patterns(old(self).state().patterns, texts(raw@)),
                self.processed_artifacts == old(self).processed_artifacts,
                self.resource_pattern() == old(self).resource_pattern(),
            decreases raw.len() - i,
        {
            let normalized = strip_separators(raw[i].as_str());
            proof {
                let tail = texts(raw@).skip(i as int);
                assert(tail[0] == raw@[i as int]@);
                assert(tail.skip(1) =~= texts(raw@).skip(i as int + 1));
            }
            if !contains_text(&self.artifact_patterns, &normalized) {
                proof {
                    assert(texts(self.artifact_patterns@.push(normalized)) =~= texts(
                        self.artifact_patterns@,
                    ).push(normalized@));
                }
                self.artifact_patterns.push(normalized);
            }
            i += 1;
        }
    }

    /// Does the work on `stack` until none is left or a name is missing.
    fn resolve_pending(&mut self, work: Vec<WorkItem>, catalog: &[YamlArtifact]) -> (r: Result<
        (),
        CollectorError,
    >)
        requires
            forall|k: int| 0 <= k < work@.len() ==> (#[trigger] work@[k]).in_catalog(catalog@),
        ensures
            final(self).state() == run(
                catalog@,
                pending_of(catalog@, work@),
                old(self).state(),
            ).state,
            final(self).resource_pattern() == old(self).resource_pattern(),
            match run(catalog@, pending_of(catalog@, work@), old(self).state()).missing {
                None => r is Ok,
                Some(name) => r matches Err(CollectorError::ResourceNotFound(n)) && n@ == name,
            },
    {
        let ghost goal = run(catalog@, pending_of(catalog@, work@), self.state());
        let mut stack = work;
        while stack.len() > 0
            invariant
                forall|k: int| 0 <= k < stack@.len() ==> (#[trigger] stack@[k]).in_catalog(catalog@),
                run(catalog@, pending_of(catalog@, stack@), self.state()) == goal,
                goal == run(catalog@, pending_of(catalog@, work@), old(self).state()),
                self.resource_pattern() == old(self).resource_pattern(),
            decreases unvisited(catalog@, texts(self.processed_artifacts@)), stack@.len(),
        {
            let ghost before = stack@;
            let ghost state = self.state();
            let item = stack.pop().unwrap();
            proof {
                assert(before =~= stack@.push(item));
                lemma_pending_push(catalog@, stack@, item);
                let work = pending_of(catalog@, before);
                assert(work[0] == item.pending(catalog@));
                assert(work.skip(1) =~= pending_of(catalog@, stack@));
                assert(item.in_catalog(catalog@)) by {
                    assert(before[before.len() - 1] == item);
                }
            }
            match item {
                WorkItem::Emit(i) => {
                    match &catalog[i].artifact.path {
                        Some(paths) => {
                            self.add_paths(paths);
                        },
                        None => {},
                    }
                    proof {
                        assert(self.state() == ResolutionSet {
                            visited: state.visited,
                            patterns: add_patterns(state.patterns, catalog@[i as int].patterns()),
                        });
                    }
                },
                WorkItem::Visit(name) => {
                    if !contains_text(&self.processed_artifacts, &name) {
                        match find_entry(catalog, &name) {
                            None => {
                                return Err(CollectorError::ResourceNotFound(name));
                            },
                            Some(i) => {
                                proof {
                                    names_of(catalog@).index_of_first_ensures(name@);
                                    assert(names_of(catalog@)[i as int] == catalog@[i as int].name());
                                    lemma_visit_lowers(catalog@, state.visited, name@, i as int);
                                    assert(texts(self.processed_artifacts@.push(name)) =~= texts(
                                        self.processed_artifacts@,
                                    ).push(name@));
                                    lemma_pending_push(catalog@, stack@, WorkItem::Emit(i));
                                }
                                self.processed_artifacts.push(name);
                                stack.push(WorkItem::Emit(i));
                                let ghost rest = pending_of(catalog@, stack@);
                                match &catalog[i].artifact.group {
                                    Some(members) => {
                                        let mut j: usize = members.len();
                                        proof {
                                            assert(visits(texts(members@).skip(j as int)) + rest
                                                =~= rest);
                                        }
                                        while j > 0
                                            invariant
                                                j <= members.len(),
                                                forall|k: int|
                                                    0 <= k < stack@.len() ==> (
                                                    #[trigger] stack@[k]).in_catalog(catalog@),
                                                pending_of(catalog@, stack@) == visits(
                                                    texts(members@).skip(j as int),
                                                ) + rest,
                                            decreases j,
                                        {
                                            j -= 1;
                                            let member = members[j].clone();
                                            proof {
                                                lemma_pending_push(
                                                    catalog@,
                                                    stack@,
                                                    WorkItem::Visit(member),
                                                );
                                                assert(seq![Pending::Visit(member@)] + (visits(
                                                    texts(members@).skip(j as int + 1),
                                                ) + rest) =~= visits(
                                                    texts(members@).skip(j as int),
                                                ) + rest);
                                            }
                                            stack.push(WorkItem::Visit(member));
                                        }
                                        proof {
                                            assert(texts(members@).skip(0) =~= texts(members@));
                                        }
                                    },
                                    None => {
                                        proof {
                                            assert(visits(Seq::empty()) + rest =~= rest);
                                        }
                                    },
                                }
                                proof {
                                    let entry = catalog@[i as int];
                                    assert(pending_of(catalog@, stack@) =~= visits(entry.members())
                                        + seq![Pending::Emit(entry.patterns())] + pending_of(
                                        catalog@,
                                        before.drop_last(),
                                    ));
                                    assert(self.state() == ResolutionSet {
                                        visited: state.visited.push(name@),
                                        patterns: state.patterns,
                                    });
                                }
                            },
                        }
                    }
                },
            }
        }
        Ok(())
    }
}

impl ResourcesParser {
    /// A parser for definitions that are already in memory: it knows no
    /// definition files and has resolved nothing.
    pub fn init() -> (r: Self)
        ensures
            r.resource_pattern().len() == 0,
            r.state().visited.len() == 0,
            r.state().patterns.len() == 0,
    {
        ResourcesParser {
            resource_path: FormatSource::default(),
            artifact_patterns: Vec::new(),
            processed_artifacts: Vec::new(),
        }
    }

    /// A parser for the definition files under `resource_path`. `exists`
    /// says whether that directory is there; without it nothing can be
    /// loaded and the parser is refused.
    pub fn new(resource_path: &str, exists: bool) -> (r: Result<Self, CollectorError>)
        ensures
            match r {
                Ok(parser) => {
                    &&& exists
                    &&& parser.resource_pattern() == join_path(
                        resource_path@,
                        "**/*.yaml"@,
                    )
                    &&& parser.state().visited.len() == 0
                    &&& parser.state().patterns.len() == 0
                },
                Err(e) => {
                    &&& !exists
                    &&& e matches CollectorError::ResourcesDirectoryNotFound(p)
                    &&& p@ == resource_path@
                },
            },
    {
        if !exists {
            return Err(CollectorError::ResourcesDirectoryNotFound(resource_path.to_owned()));
        }
        let mut format_path = FormatSource::new(resource_path);
        format_path.push("**/*.yaml");
        Ok(
            ResourcesParser {
                resource_path: format_path,
                artifact_patterns: Vec::new(),
                processed_artifacts: Vec::new(),
            },
        )
    }

    /// A parser for the definition files under `./Resources/`.
    pub fn with_default_path(exists: bool) -> (r: Result<Self, CollectorError>)
        ensures
            match r {
                Ok(parser) => {
                    &&& exists
                    &&& parser.resource_pattern() == join_path(
                        "./Resources/"@,
                        "**/*.yaml"@,
                    )
                    &&& parser.state().visited.len() == 0
                    &&& parser.state().patterns.len() == 0
                },
                Err(e) => {
                    &&& !exists
                    &&& e matches CollectorError::ResourcesDirectoryNotFound(p)
                    &&& p@ == "./Resources/"@
                },
            },
    {
        Self::new("./Resources/", exists)
    }

    /// The glob pattern that finds the definition files.
    pub fn resource_path(&self) -> (r: &FormatSource)
        ensures
            r@ == self.resource_pattern(),
    {
        &self.resource_path
    }

    /// Resolves `artifact_names` against `all_artifacts`: the patterns of
    /// every entry the names reach through groups, depth first, in
    /// declaration order, normalised and without repeats. A name that no
    /// entry has, requested or referenced, ends the resolution with
    /// `ResourceNotFound` of that name. Whatever an earlier resolution left
    /// in the parser is discarded first.
    pub fn select_artifact(&mut self, artifact_names: Vec<String>, all_artifacts: &[YamlArtifact]) -> (r:
        Result<Vec<String>, CollectorError>)
        ensures
            final(self).state() == resolve(all_artifacts@, texts(artifact_names@)).state,
            final(self).resource_pattern() == old(self).resource_pattern(),
            match resolve(all_artifacts@, texts(artifact_names@)).missing {
                None => r matches Ok(list) && texts(list@) == resolve(
                    all_artifacts@,
                    texts(artifact_names@),
                ).state.patterns,
                Some(name) => r matches Err(CollectorError::ResourceNotFound(n)) && n@ == name,
            },
    {
        self.artifact_patterns = Vec::new();
        self.processed_artifacts = Vec::new();
        let mut stack: Vec<WorkItem> = Vec::new();
        let mut j: usize = artifact_names.len();
        proof {
            assert(visits(texts(artifact_names@).skip(j as int)) =~= Seq::<Pending>::empty());
            assert(self.state().visited =~= Seq::<Seq<char>>::empty());
            assert(self.state().patterns =~= Seq::<Seq<char>>::empty());
        }
        while j > 0
            invariant
                j <= artifact_names.len(),
                forall|k: int|
                    0 <= k < stack@.len() ==> (#[trigger] stack@[k]).in_catalog(all_artifacts@),
                pending_of(all_artifacts@, stack@) == visits(texts(artifact_names@).skip(j as int)),
            decreases j,
        {
            j -= 1;
            let name = artifact_names[j].clone();
            proof {
                lemma_pending_push(all_artifacts@, stack@, WorkItem::Visit(name));
                assert(seq![Pending::Visit(name@)] + visits(
                    texts(artifact_names@).skip(j as int + 1),
                ) =~= visits(texts(artifact_names@).skip(j as int)));
            }
            stack.push(WorkItem::Visit(name));
        }
        proof {
            assert(texts(artifact_names@).skip(0) =~= texts(artifact_names@));
        }
        match self.resolve_pending(stack, all_artifacts) {
            Ok(()) => Ok(clone_texts(&self.artifact_patterns)),
            Err(e) => Err(e),
        }
    }

    /// The names of `artifacts`, in order.
    pub fn get_artifact_names(artifacts: &[YamlArtifact]) -> (r: Vec<String>)
        ensures
            texts(r@) == names_of(artifacts@),
    {
        let mut out: Vec<String> = Vec::new();
        let mut i: usize = 0;
        while i < artifacts.len()
            invariant
                i <= artifacts@.len(),
                out@.len() == i,
                forall|j: int| 0 <= j < i ==> out@[j]@ == artifacts@[j].name(),
            decreases artifacts@.len() - i,
        {
            out.push(artifacts[i].metadata.name.clone());
            i += 1;
        }
        assert(texts(out@) =~= names_of(artifacts@));
        out
    }

    /// The names of `artifacts` grouped by category, `Other` standing for
    /// no category.
    pub fn get_by_category(artifacts: &[YamlArtifact]) -> (r: CategoryIndex)
        ensures
            r.indexes(artifacts@),
    {
        CategoryIndex::of(artifacts)
    }

    /// The entries of `artifacts` that carry patterns, in order.
    pub fn get_targets(artifacts: &[YamlArtifact]) -> (r: Vec<&YamlArtifact>)
        ensures
            r@.unref() == artifacts@.filter(|a: YamlArtifact| a.artifact.path is Some),
    {
        let ghost keep = |a: YamlArtifact| a.artifact.path is Some;
        let mut out: Vec<&YamlArtifact> = Vec::new();
        let mut i: usize = 0;
        proof {
            assert(out@.unref() =~= artifacts@.take(0).filter(keep));
        }
        while i < artifacts.len()
            invariant
                i <= artifacts@.len(),
                keep == (|a: YamlArtifact| a.artifact.path is Some),
                out@.unref() == artifacts@.take(i as int).filter(keep),
            decreases artifacts@.len() - i,
        {
            proof {
                artifacts@.take(i as int).lemma_filter_push(artifacts@[i as int], keep);
                assert(artifacts@.take(i as int).push(artifacts@[i as int]) =~= artifacts@.take(
                    i as int + 1,
                ));
            }
            if artifacts[i].has_paths() {
                proof {
                    assert(out@.push(&artifacts@[i as int]).unref() =~= out@.unref().push(
                        artifacts@[i as int],
                    ));
                }
                out.push(&artifacts[i]);
            }
            i += 1;
        }
        proof {
            assert(artifacts@.take(artifacts@.len() as int) =~= artifacts@);
        }
        out
    }

    /// The entries of `artifacts` that name other entries, in order.
    pub fn get_groups(artifacts: &[YamlArtifact]) -> (r: Vec<&YamlArtifact>)
        ensures
            r@.unref() == artifacts@.filter(|a: YamlArtifact| a.artifact.group is Some),
    {
        let ghost keep = |a: YamlArtifact| a.artifact.group is Some;
        let mut out: Vec<&YamlArtifact> = Vec::new();
        let mut i: usize = 0;
        proof {
            assert(out@.unref() =~= artifacts@.take(0).filter(keep));
        }
        while i < artifacts.len()
            invariant
                i <= artifacts@.len(),
                keep == (|a: YamlArtifact| a.artifact.group is Some),
                out@.unref() == artifacts@.take(i as int).filter(keep),
            decreases artifacts@.len() - i,
        {
            proof {
                artifacts@.take(i as int).lemma_filter_push(artifacts@[i as int], keep);
                assert(artifacts@.take(i as int).push(artifacts@[i as int]) =~= artifacts@.take(
                    i as int + 1,
                ));
            }
            if artifacts[i].is_group() {
                proof {
                    assert(out@.push(&artifacts@[i as int]).unref() =~= out@.unref().push(
                        artifacts@[i as int],
                    ));
                }
                out.push(&artifacts[i]);
            }
            i += 1;
        }
        proof {
            assert(artifacts@.take(artifacts@.len() as int) =~= artifacts@);
        }
        out
    }
}

/// Why a definition is unusable, or nothing where it is usable.
pub open spec fn invalid_reason(artifact: YamlArtifact) -> Option<Seq<char>> {
    if artifact.artifact.valid() {
        None
    } else if artifact.artifact.path is None {
        Some("neither 'path' nor 'group' defined"@)
    } else {
        Some("both 'path' and 'group' defined"@)
    }
}

/// Accepts a definition that has exactly one of `path` and `group`, and
/// refuses any other as `InvalidResource` with its name and the reason.
pub fn validate_artifact(artifact: &YamlArtifact) -> (r: Result<(), CollectorError>)
    ensures
        match invalid_reason(*artifact) {
            None => r is Ok,
            Some(why) => r matches Err(CollectorError::InvalidResource { name, reason })
                && name@ == artifact.name() && reason@ == why,
        },
{
    if !artifact.artifact.is_valid() {
        let reason = if artifact.artifact.path.is_none() {
            "neither 'path' nor 'group' defined"
        } else {
            "both 'path' and 'group' defined"
        };
        return Err(
            CollectorError::InvalidResource {
                name: artifact.metadata.name.clone(),
                reason: reason.to_owned(),
            },
        );
    }
    Ok(())
}

/// A pattern without the separators at its front; nothing else changes.
pub fn normalize_artifact_path(path: &str) -> (r: String)
    ensures
        r@ == strip_leading_separators(path@),
{
    strip_separators(path)
}

/// What loading a batch of parsed definitions yields: the entries kept, in
/// the order they were given, and one `InvalidResource` for each entry of
/// this host that was refused.
pub struct CatalogLoad {
    pub artifacts: Vec<YamlArtifact>,
    pub rejected: Vec<CollectorError>,
}

/// The entry is written for `host` and has exactly one of `path` and `group`.
pub open spec fn is_loadable(artifact: YamlArtifact, host: Target) -> bool {
    artifact.metadata.target == host && artifact.artifact.valid()
}

/// The entry is written for `host` but has both of `path` and `group`, or
/// neither.
pub open spec fn is_refused(artifact: YamlArtifact, host: Target) -> bool {
    artifact.metadata.target == host && !artifact.artifact.valid()
}

/// The warning a refused entry gives rise to.
pub open spec fn is_warning_for(warning: CollectorError, artifact: YamlArtifact) -> bool {
    match warning {
        CollectorError::InvalidResource { name, reason } => name@ == artifact.name() && Some(reason@)
            == invalid_reason(artifact),
        _ => false,
    }
}

/// Builds the catalog from parsed definitions. An entry for another host is
/// dropped silently; an entry of this host with both or neither of `path`
/// and `group` is dropped with a warning; every other entry is kept, so one
/// bad entry never costs the rest.
pub fn load_documents(documents: Vec<YamlArtifact>, host: Target) -> (r:
    CatalogLoad)
    ensures
        r.artifacts@ == documents@.filter(|a: YamlArtifact| is_loadable(a, host)),
        r.rejected@.len() == documents@.filter(|a: YamlArtifact| is_refused(a, host)).len(),
        forall|k: int|
            0 <= k < r.rejected@.len() ==> is_warning_for(
                #[trigger] r.rejected@[k],
                documents@.filter(|a: YamlArtifact| is_refused(a, host))[k],
            ),
{
    let ghost keep = |a: YamlArtifact| is_loadable(a, host);
    let ghost drop = |a: YamlArtifact| is_refused(a, host);
    let mut artifacts: Vec<YamlArtifact> = Vec::new();
    let mut rejected: Vec<CollectorError> = Vec::new();
    proof {
        assert(documents@.take(0).filter(keep) =~= Seq::<YamlArtifact>::empty());
        assert(documents@.take(0).filter(drop) =~= Seq::<YamlArtifact>::empty());
    }
    for document in it: documents
        invariant
            keep == (|a: YamlArtifact| is_loadable(a, host)),
            drop == (|a: YamlArtifact| is_refused(a, host)),
            it.seq() == documents@,
            artifacts@ == documents@.take(it.index() as int).filter(keep),
            rejected@.len() == documents@.take(it.index() as int).filter(drop).len(),
            forall|k: int|
                0 <= k < rejected@.len() ==> is_warning_for(
                    #[trigger] rejected@[k],
                    documents@.take(it.index() as int).filter(drop)[k],
                ),
    {
        proof {
            let i = it.index() as int;
            documents@.take(i).lemma_filter_push(document, keep);
            documents@.take(i).lemma_filter_push(document, drop);
            assert(documents@.take(i).push(document) =~= documents@.take(i + 1));
        }
        if document.metadata.target.matches(host) {
            match validate_artifact(&document) {
                Ok(()) => {
                    artifacts.push(document);
                },
                Err(warning) => {
                    rejected.push(warning);
                },
            }
        }
    }
    proof {
        assert(documents@.take(documents@.len() as int) =~= documents@);
    }
    CatalogLoad { artifacts, rejected }
}

} // verus!
