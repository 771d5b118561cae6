//! The catalog's entries grouped by category.

use vstd::prelude::*;
use crate::resource::file_struct::YamlArtifact;
use crate::text::{clone_texts, find_text, texts};

verus! {

/// The names of the entries of `catalog` that belong to `category`, in
/// catalog order. An entry without a category belongs to `Other`.
pub open spec fn names_in_category(catalog: Seq<YamlArtifact>, category: Seq<char>) -> Seq<Seq<char>> {
    catalog.filter(|a: YamlArtifact| a.metadata.category_text() == category).map_values(
        |a: YamlArtifact| a.name(),
    )
}

/// One more entry adds its name to its own category and to no other.
pub proof fn lemma_category_push(catalog: Seq<YamlArtifact>, entry: YamlArtifact, category: Seq<char>)
    ensures
        names_in_category(catalog.push(entry), category) == if entry.metadata.category_text()
            == category {
            names_in_category(catalog, category).push(entry.name())
        } else {
            names_in_category(catalog, category)
        },
{
    let keep = |a: YamlArtifact| a.metadata.category_text() == category;
    let name = |a: YamlArtifact| a.name();
    catalog.lemma_filter_push(entry, keep);
    if keep(entry) {
        assert(catalog.filter(keep).push(entry).map_values(name) =~= catalog.filter(keep).map_values(
            name,
        ).push(entry.name()));
    }
}

/// For each category, the names of the entries that belong to it.
#[derive(Debug)]
pub struct CategoryIndex {
    keys: Vec<String>,
    values: Vec<Vec<String>>,
}

impl CategoryIndex {
    /// The categories that have an entry, in the order they first occur.
    pub closed spec fn categories(&self) -> Seq<Seq<char>> {
        texts(self.keys@)
    }

    /// The names listed under `category`; none where the category has no
    /// entry.
    pub closed spec fn names(&self, category: Seq<char>) -> Seq<Seq<char>> {
        match texts(self.keys@).index_of_first(category) {
            Some(i) => texts(self.values@[i]@),
            None => Seq::empty(),
        }
    }

    /// The index is that of `catalog`: no category is listed twice, a
    /// category is listed exactly when an entry belongs to it, and under
    /// each category stand the names of its entries, in catalog order.
    pub open spec fn indexes(&self, catalog: Seq<YamlArtifact>) -> bool {
        &&& self.categories().no_duplicates()
        &&& forall|c: Seq<char>|
            self.categories().contains(c) <==> (#[trigger] names_in_category(catalog, c)).len() > 0
        &&& forall|c: Seq<char>| #[trigger] self.names(c) == names_in_category(catalog, c)
    }

    #[verifier::type_invariant]
    spec fn well_formed(self) -> bool {
        self.keys@.len() == self.values@.len()
    }

    spec fn describes(self, catalog: Seq<YamlArtifact>) -> bool {
        &&& self.keys@.len() == self.values@.len()
        &&& texts(self.keys@).no_duplicates()
        &&& forall|j: int|
            0 <= j < self.keys@.len() ==> texts((#[trigger] self.values@[j])@) == names_in_category(
                catalog,
                self.keys@[j]@,
            )
        &&& forall|j: int|
            0 <= j < self.keys@.len() ==> (#[trigger] self.values@[j])@.len() > 0
        &&& forall|c: Seq<char>|
            !texts(self.keys@).contains(c) ==> (#[trigger] names_in_category(catalog, c)).len() == 0
    }

    proof fn lemma_describes_indexes(self, catalog: Seq<YamlArtifact>)
        requires
            self.describes(catalog),
        ensures
            self.indexes(catalog),
    {
        assert forall|c: Seq<char>| #[trigger] self.names(c) == names_in_category(catalog, c) by {
            texts(self.keys@).index_of_first_ensures(c);
            match texts(self.keys@).index_of_first(c) {
                Some(i) => {
                    assert(texts(self.values@[i]@) == names_in_category(catalog, self.keys@[i]@));
                },
                None => {
                    assert(names_in_category(catalog, c).len() == 0);
                    assert(names_in_category(catalog, c) =~= Seq::<Seq<char>>::empty());
                },
            }
        }
        assert forall|c: Seq<char>|
            self.categories().contains(c) <==> (#[trigger] names_in_category(catalog, c)).len()
                > 0 by {
            if self.categories().contains(c) {
                let j = choose|j: int| 0 <= j < texts(self.keys@).len() && texts(self.keys@)[j] == c;
                assert(texts(self.values@[j]@) == names_in_category(catalog, self.keys@[j]@));
                assert(self.values@[j]@.len() > 0);
            }
        }
    }

    /// The index of `artifacts`.
    pub fn of(artifacts: &[YamlArtifact]) -> (r: Self)
        ensures
            r.indexes(artifacts@),
    {
        let mut keys: Vec<String> = Vec::new();
        let mut values: Vec<Vec<String>> = Vec::new();
        let mut i: usize = 0;
        proof {
            assert forall|c: Seq<char>|
                (#[trigger] names_in_category(artifacts@.take(0), c)).len() == 0 by {
                artifacts@.take(0).lemma_filter_len(
                    |a: YamlArtifact| a.metadata.category_text() == c,
                );
            }
        }
        while i < artifacts.len()
            invariant
                i <= artifacts@.len(),
                (CategoryIndex { keys, values }).describes(artifacts@.take(i as int)),
            decreases artifacts@.len() - i,
        {
            let ghost done = artifacts@.take(i as int);
            let ghost entry = artifacts@[i as int];
            let ghost before = CategoryIndex { keys, values };
            let category = artifacts[i].metadata.category_or_default().to_owned();
            let name = artifacts[i].metadata.name.clone();
            proof {
                assert(done.push(entry) =~= artifacts@.take(i as int + 1));
                assert forall|c: Seq<char>|
                    names_in_category(done.push(entry), c) == if entry.metadata.category_text() == c {
                        names_in_category(done, c).push(entry.name())
                    } else {
                        names_in_category(done, c)
                    } by {
                    lemma_category_push(done, entry, c);
                }
            }
            match find_text(&keys, &category) {
                Some(j) => {
                    let mut listed = values.remove(j);
                    proof {
                        assert(texts(listed@.push(name)) =~= texts(listed@).push(name@));
                    }
                    listed.push(name);
                    values.insert(j, listed);
                    proof {
                        assert(values@ =~= before.values@.update(j as int, listed));
                        assert forall|k: int| 0 <= k < keys@.len() implies texts(
                            (#[trigger] values@[k])@,
                        ) == names_in_category(done.push(entry), keys@[k]@) by {
                            assert(texts(before.values@[k]@) == names_in_category(
                                done,
                                before.keys@[k]@,
                            ));
                            if k != j {
                                assert(texts(before.keys@)[k] != texts(before.keys@)[j as int]);
                            }
                        }
                        assert forall|k: int| 0 <= k < keys@.len() implies (
                        #[trigger] values@[k])@.len() > 0 by {
                            if k != j {
                                assert(before.values@[k]@.len() > 0);
                            }
                        }
                        assert forall|c: Seq<char>| !texts(keys@).contains(c) implies (
                        #[trigger] names_in_category(done.push(entry), c)).len() == 0 by {
                            assert(texts(keys@)[j as int] == category@);
                            assert(names_in_category(done, c).len() == 0);
                        }
                    }
                },
                None => {
                    let mut listed: Vec<String> = Vec::new();
                    proof {
                        assert(texts(listed@.push(name)) =~= texts(listed@).push(name@));
                        assert(texts(keys@.push(category)) =~= texts(keys@).push(
                            category@,
                        ));
                        assert(names_in_category(done, category@).len() == 0);
                        assert(names_in_category(done, category@).push(name@) =~= texts(
                            listed@,
                        ).push(name@));
                    }
                    listed.push(name);
                    keys.push(category);
                    values.push(listed);
                    proof {
                        let last = before.keys@.len() as int;
                        assert forall|k: int| 0 <= k < keys@.len() implies texts(
                            (#[trigger] values@[k])@,
                        ) == names_in_category(done.push(entry), keys@[k]@) by {
                            if k < last {
                                assert(values@[k] == before.values@[k]);
                                assert(texts(before.values@[k]@) == names_in_category(
                                    done,
                                    before.keys@[k]@,
                                ));
                                assert(texts(before.keys@)[k] == before.keys@[k]@);
                                assert(texts(before.keys@).contains(before.keys@[k]@));
                            }
                        }
                        assert forall|k: int| 0 <= k < keys@.len() implies (
                        #[trigger] values@[k])@.len() > 0 by {
                            if k < last {
                                assert(values@[k] == before.values@[k]);
                                assert(before.values@[k]@.len() > 0);
                            }
                        }
                        assert forall|c: Seq<char>| !texts(keys@).contains(c) implies (
                        #[trigger] names_in_category(done.push(entry), c)).len() == 0 by {
                            assert(texts(keys@)[last] == category@);
                            if texts(before.keys@).contains(c) {
                                let k = choose|k: int|
                                    0 <= k < texts(before.keys@).len() && texts(before.keys@)[k] == c;
                                assert(texts(keys@)[k] == c);
                            }
                            assert(names_in_category(done, c).len() == 0);
                        }
                    }
                },
            }
            i += 1;
        }
        proof {
            assert(artifacts@.take(artifacts@.len() as int) =~= artifacts@);
            (CategoryIndex { keys, values }).lemma_describes_indexes(artifacts@);
        }
        CategoryIndex { keys, values }
    }

    /// Whether `category` has an entry.
    pub fn contains_key(&self, category: &str) -> (r: bool)
        ensures
            r == self.categories().contains(category@),
    {
        let needle = category.to_owned();
        find_text(&self.keys, &needle).is_some()
    }

    /// The names listed under `category`, if the category has an entry.
    pub fn get(&self, category: &str) -> (r: Option<&Vec<String>>)
        ensures
            match r {
                Some(listed) => self.categories().contains(category@) && texts(listed@)
                    == self.names(category@),
                None => !self.categories().contains(category@),
            },
    {
        proof {
            use_type_invariant(self);
        }
        let needle = category.to_owned();
        match find_text(&self.keys, &needle) {
            Some(i) => Some(&self.values[i]),
            None => None,
        }
    }

    /// The categories that have an entry, in the order they first occur.
    pub fn keys(&self) -> (r: Vec<String>)
        ensures
            texts(r@) == self.categories(),
    {
        clone_texts(&self.keys)
    }
}

} // verus!
