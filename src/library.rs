use vstd::prelude::*;

use crate::snippet::{defines_label, Snippet};

verus! {

/// No two entries of `s` are equal.
pub open spec fn distinct(s: Seq<Seq<char>>) -> bool {
    forall|i: int, j: int| 0 <= i < s.len() && 0 <= j < s.len() && i != j ==> s[i] != s[j]
}

/// The bodies one after another, each followed by a line break.
pub open spec fn joined(bodies: Seq<Seq<char>>) -> Seq<char>
    decreases bodies.len(),
{
    if bodies.len() == 0 {
        Seq::empty()
    } else {
        joined(bodies.drop_last()) + bodies.last() + "\n"@
    }
}

/// What an import of a snippet with entrypoint `entry` promises: `new`
/// is the library after the import of `old`, and `r` the label returned.
pub open spec fn import_result(old: Library, entry: Seq<char>, r: Seq<char>, new: Library) -> bool {
    &&& new.wf()
    &&& new.extends(old)
    &&& r == entry
    &&& new.spec_labels().contains(r)
    &&& (old.spec_labels().contains(r) ==> new == old)
    &&& (!old.spec_labels().contains(r) ==> new.spec_owners().contains(r))
}

/// What a static allocation of `num_words` words promises: `new` is the
/// library after the allocation of `old`, and `r` the address returned.
pub open spec fn kmalloc_result(old: Library, num_words: nat, r: nat, new: Library) -> bool {
    &&& new.extends(old)
    &&& r == old.spec_free_pointer()
    &&& new.spec_free_pointer() == old.spec_free_pointer() + num_words
}

/// The linker: it imports snippets by label, emits the code of each label
/// once, and hands out static memory that no other request shares.
pub struct Library {
    /// Every label imported so far, in the order in which it was first asked for.
    labels: Vec<String>,
    /// The label whose code each entry of `bodies` is.
    owners: Vec<String>,
    /// The code emitted so far, one entry per finished import.
    bodies: Vec<String>,
    /// The next word of static memory that no one has been granted.
    free_pointer: u64,
}

impl Library {
    /// The labels imported so far, in the order of their first import.
    pub closed spec fn spec_labels(&self) -> Seq<Seq<char>> {
        self.labels@.map_values(|s: String| s@)
    }

    /// For each emitted body, the label it belongs to.
    pub closed spec fn spec_owners(&self) -> Seq<Seq<char>> {
        self.owners@.map_values(|s: String| s@)
    }

    /// The emitted bodies, in the order in which their imports finished.
    pub closed spec fn spec_bodies(&self) -> Seq<Seq<char>> {
        self.bodies@.map_values(|s: String| s@)
    }

    /// The next word of static memory that is free.
    pub closed spec fn spec_free_pointer(&self) -> nat {
        self.free_pointer as nat
    }

    /// Labels are unique, each body belongs to an imported label and
    /// starts with its definition, and no label owns two bodies.
    pub open spec fn wf(&self) -> bool {
        &&& distinct(self.spec_labels())
        &&& distinct(self.spec_owners())
        &&& self.spec_owners().len() == self.spec_bodies().len()
        &&& forall|i: int|
            0 <= i < self.spec_bodies().len() ==> defines_label(
                #[trigger] self.spec_bodies()[i],
                self.spec_owners()[i],
            )
        &&& forall|i: int|
            0 <= i < self.spec_owners().len() ==> self.spec_labels().contains(
                #[trigger] self.spec_owners()[i],
            )
    }

    /// `self` is `old` after further imports and static allocations: what
    /// was recorded stays, new bodies belong to labels that were not yet
    /// imported, and the static cursor has not moved back.
    pub open spec fn extends(&self, old: Library) -> bool {
        &&& old.spec_labels().is_prefix_of(self.spec_labels())
        &&& old.spec_owners().is_prefix_of(self.spec_owners())
        &&& old.spec_bodies().is_prefix_of(self.spec_bodies())
        &&& forall|i: int|
            old.spec_owners().len() <= i < self.spec_owners().len() ==> !old.spec_labels().contains(
                #[trigger] self.spec_owners()[i],
            )
        &&& old.spec_free_pointer() <= self.spec_free_pointer()
    }

    /// An empty library. Static memory starts at word 1, since word 0 is
    /// the dynamic allocator's cell.
    pub fn new() -> (r: Library)
        ensures
            r.wf(),
            r.spec_labels().len() == 0,
            r.spec_bodies().len() == 0,
            r.spec_free_pointer() == 1,
    {
        Library::with_preallocated_memory(1)
    }

    /// An empty library whose static memory starts after the first
    /// `words_statically_allocated` words (and never at word 0).
    pub fn with_preallocated_memory(words_statically_allocated: u64) -> (r: Library)
        ensures
            r.wf(),
            r.spec_labels().len() == 0,
            r.spec_bodies().len() == 0,
            r.spec_free_pointer() == if words_statically_allocated == 0 {
                1
            } else {
                words_statically_allocated
            },
    {
        let free_pointer = if words_statically_allocated == 0 {
            1
        } else {
            words_statically_allocated
        };
        let r = Library { labels: Vec::new(), owners: Vec::new(), bodies: Vec::new(), free_pointer };
        proof {
            assert(r.spec_labels() =~= Seq::empty());
            assert(r.spec_owners() =~= Seq::empty());
            assert(r.spec_bodies() =~= Seq::empty());
        }
        r
    }

    /// The next word of static memory that is free.
    pub fn free_pointer(&self) -> (r: u64)
        ensures
            r == self.spec_free_pointer(),
    {
        self.free_pointer
    }

    /// Whether `label` has been imported.
    pub fn has_label(&self, label: &String) -> (r: bool)
        ensures
            r == self.spec_labels().contains(label@),
    {
        let mut i: usize = 0;
        while i < self.labels.len()
            invariant
                i <= self.labels.len(),
                forall|j: int| 0 <= j < i ==> self.spec_labels()[j] != label@,
            decreases self.labels.len() - i,
        {
            if self.labels[i].eq(label) {
                assert(self.spec_labels()[i as int] == label@);
                return true;
            }
            i = i + 1;
        }
        proof {
            if self.spec_labels().contains(label@) {
                let k = choose|k: int|
                    0 <= k < self.spec_labels().len() && self.spec_labels()[k] == label@;
                assert(self.spec_labels()[k] != label@);
            }
        }
        false
    }

    /// Imports `snippet` and returns the label to call it by.
    ///
    /// A label that was imported before is returned as it is, and nothing is
    /// generated or emitted. Otherwise the label is recorded first (so that
    /// the snippet's code may call itself), then its code is generated, which
    /// may import further snippets, and then emitted once.
    pub fn import<S: Snippet>(&mut self, snippet: &S) -> (r: String)
        requires
            old(self).wf(),
        ensures
            final(self).wf(),
            final(self).extends(*old(self)),
            r@ == snippet.spec_entrypoint(),
            final(self).spec_labels().contains(r@),
            old(self).spec_labels().contains(r@) ==> *final(self) == *old(self),
            !old(self).spec_labels().contains(r@) ==> final(self).spec_owners().contains(r@),
            !old(self).spec_labels().contains(r@) ==> final(self).spec_owners().last() == r@
                && final(self).spec_bodies().last() == snippet.spec_code(
                old(self).spec_free_pointer(),
            ),
    {
        let label = snippet.entrypoint();
        if self.has_label(&label) {
            return label;
        }
        let ghost before = *self;
        self.labels.push(label.clone());
        proof {
            assert(self.spec_labels() =~= before.spec_labels().push(label@));
            assert(self.spec_owners() =~= before.spec_owners());
            assert(self.spec_bodies() =~= before.spec_bodies());
            assert forall|i: int, j: int|
                0 <= i < self.spec_labels().len() && 0 <= j < self.spec_labels().len() && i != j
                    implies self.spec_labels()[i] != self.spec_labels()[j] by {
                if i == before.spec_labels().len() {
                    assert(before.spec_labels()[j] == self.spec_labels()[j]);
                } else if j == before.spec_labels().len() {
                    assert(before.spec_labels()[i] == self.spec_labels()[i]);
                }
            }
            assert forall|i: int| 0 <= i < self.spec_owners().len() implies
                self.spec_labels().contains(#[trigger] self.spec_owners()[i]) by {
                let o = self.spec_owners()[i];
                assert(before.spec_labels().contains(o));
                let k = choose|k: int| 0 <= k < before.spec_labels().len() && before.spec_labels()[k] == o;
                assert(self.spec_labels()[k] == o);
            }
        }
        let ghost recorded = *self;
        let body = snippet.function_code(self);
        let ghost generated = *self;
        proof {
            assert(recorded.spec_labels().contains(label@)) by {
                assert(recorded.spec_labels()[before.spec_labels().len() as int] == label@);
            }
            assert(!generated.spec_owners().contains(label@)) by {
                if generated.spec_owners().contains(label@) {
                    let k = choose|k: int|
                        0 <= k < generated.spec_owners().len() && generated.spec_owners()[k] == label@;
                    if k < recorded.spec_owners().len() {
                        assert(recorded.spec_owners()[k] == label@);
                        assert(before.spec_owners()[k] == label@);
                        assert(before.spec_labels().contains(label@));
                    }
                }
            }
        }
        self.owners.push(label.clone());
        self.bodies.push(body);
        proof {
            assert(self.spec_owners() =~= generated.spec_owners().push(label@));
            assert(self.spec_bodies() =~= generated.spec_bodies().push(body@));
            assert(self.spec_labels() =~= generated.spec_labels());
            assert(self.spec_owners()[generated.spec_owners().len() as int] == label@);
            assert forall|i: int| 0 <= i < self.spec_bodies().len() implies defines_label(
                #[trigger] self.spec_bodies()[i],
                self.spec_owners()[i],
            ) by {
                if i < generated.spec_bodies().len() {
                    assert(generated.spec_bodies()[i] == self.spec_bodies()[i]);
                    assert(generated.spec_owners()[i] == self.spec_owners()[i]);
                }
            }
            assert forall|i: int| 0 <= i < self.spec_owners().len() implies
                self.spec_labels().contains(#[trigger] self.spec_owners()[i]) by {
                if i < generated.spec_owners().len() {
                    assert(generated.spec_owners()[i] == self.spec_owners()[i]);
                } else {
                    let k = before.spec_labels().len() as int;
                    assert(recorded.spec_labels()[k] == label@);
                    assert(generated.spec_labels()[k] == label@);
                }
            }
            assert forall|i: int, j: int|
                0 <= i < self.spec_owners().len() && 0 <= j < self.spec_owners().len() && i != j
                    implies self.spec_owners()[i] != self.spec_owners()[j] by {
                let n = generated.spec_owners().len() as int;
                if i == n {
                    assert(generated.spec_owners()[j] == self.spec_owners()[j]);
                } else if j == n {
                    assert(generated.spec_owners()[i] == self.spec_owners()[i]);
                } else {
                    assert(generated.spec_owners()[i] == self.spec_owners()[i]);
                    assert(generated.spec_owners()[j] == self.spec_owners()[j]);
                }
            }
            assert(before.spec_labels().is_prefix_of(self.spec_labels())) by {
                assert forall|i: int| 0 <= i < before.spec_labels().len() implies
                    before.spec_labels()[i] == self.spec_labels()[i] by {
                    assert(recorded.spec_labels()[i] == before.spec_labels()[i]);
                }
            }
            assert forall|i: int|
                before.spec_owners().len() <= i < self.spec_owners().len() implies
                !before.spec_labels().contains(#[trigger] self.spec_owners()[i]) by {
                let n = generated.spec_owners().len() as int;
                if i < n {
                    assert(generated.spec_owners()[i] == self.spec_owners()[i]);
                    if before.spec_labels().contains(self.spec_owners()[i]) {
                        let k = choose|k: int|
                            0 <= k < before.spec_labels().len() && before.spec_labels()[k] == self.spec_owners()[i];
                        assert(recorded.spec_labels()[k] == before.spec_labels()[k]);
                    }
                }
            }
        }
        label
    }

    /// The code of every imported snippet, each body once, in the order in
    /// which their imports finished.
    pub fn all_imports(&self) -> (r: String)
        ensures
            r@ == joined(self.spec_bodies()),
    {
        let mut code = String::new();
        let mut i: usize = 0;
        while i < self.bodies.len()
            invariant
                i <= self.bodies.len(),
                code@ == joined(self.spec_bodies().take(i as int)),
            decreases self.bodies.len() - i,
        {
            proof {
                assert(self.spec_bodies().take(i as int + 1).drop_last() =~= self.spec_bodies().take(
                    i as int,
                ));
            }
            code.append(self.bodies[i].as_str());
            code.append("\n");
            i = i + 1;
        }
        proof {
            assert(self.spec_bodies().take(self.bodies.len() as int) =~= self.spec_bodies());
        }
        code
    }

    /// Reserves `num_words` words of static memory and returns the first.
    pub fn kmalloc(&mut self, num_words: u64) -> (r: u64)
        requires
            old(self).wf(),
            old(self).spec_free_pointer() + num_words <= u64::MAX,
        ensures
            final(self).wf(),
            final(self).extends(*old(self)),
            r == old(self).spec_free_pointer(),
            final(self).spec_free_pointer() == old(self).spec_free_pointer() + num_words,
            final(self).spec_labels() == old(self).spec_labels(),
            final(self).spec_bodies() == old(self).spec_bodies(),
            final(self).spec_owners() == old(self).spec_owners(),
    {
        let address = self.free_pointer;
        self.free_pointer = self.free_pointer + num_words;
        address
    }
}

proof fn lemma_prefix_contains(s: Seq<Seq<char>>, t: Seq<Seq<char>>, x: Seq<char>)
    requires
        s.is_prefix_of(t),
        s.contains(x),
    ensures
        t.contains(x),
{
    let k = choose|k: int| 0 <= k < s.len() && s[k] == x;
    assert(t[k] == x);
}

/// A label owns at most one body: in a well-formed library, a label whose
/// import has finished owns exactly one, and that body defines the label.
pub proof fn lemma_one_body_per_label(library: Library, label: Seq<char>)
    requires
        library.wf(),
        library.spec_owners().contains(label),
    ensures
        exists|i: int|
            0 <= i < library.spec_owners().len() && library.spec_owners()[i] == label
                && defines_label(library.spec_bodies()[i], label) && forall|
                j: int,
            |
                0 <= j < library.spec_owners().len() && #[trigger] library.spec_owners()[j] == label
                    ==> j == i,
{
    let i = choose|i: int| 0 <= i < library.spec_owners().len() && library.spec_owners()[i] == label;
    assert(defines_label(library.spec_bodies()[i], library.spec_owners()[i]));
    assert(forall|j: int|
        0 <= j < library.spec_owners().len() && #[trigger] library.spec_owners()[j] == label ==> j
            == i);
}

/// Importing one snippet `N` times, from anywhere in the generation of a
/// program, gives `N` equal labels and one body: `before[k]` and
/// `after[k]` are the library around the `k`-th import, which returned
/// `labels[k]`, and between two imports the library may only grow. Every
/// import after the first leaves the library as it was, and in the end
/// the label owns exactly one body.
pub proof fn lemma_import_dedup(
    before: Seq<Library>,
    after: Seq<Library>,
    labels: Seq<Seq<char>>,
    entry: Seq<char>,
)
    requires
        before.len() == after.len(),
        labels.len() == before.len(),
        before.len() >= 1,
        before[0].wf(),
        !before[0].spec_labels().contains(entry),
        forall|k: int|
            0 <= k < before.len() ==> import_result(
                #[trigger] before[k],
                entry,
                labels[k],
                after[k],
            ),
        forall|k: int|
            0 <= k < before.len() - 1 ==> before[k + 1].extends(#[trigger] after[k]),
    ensures
        forall|k: int| 0 <= k < labels.len() ==> #[trigger] labels[k] == entry,
        forall|k: int| 1 <= k < before.len() ==> #[trigger] after[k] == before[k],
        after.last().spec_owners().contains(entry),
        exists|i: int|
            0 <= i < after.last().spec_owners().len() && after.last().spec_owners()[i] == entry
                && forall|j: int|
                0 <= j < after.last().spec_owners().len() && #[trigger] after.last().spec_owners()[j]
                    == entry ==> j == i,
    decreases before.len(),
{
    let n = before.len();
    assert(import_result(before[0], entry, labels[0], after[0]));
    if n == 1 {
        lemma_one_body_per_label(after[0], entry);
    } else {
        lemma_import_dedup(before.drop_last(), after.drop_last(), labels.drop_last(), entry);
        let last = n - 1;
        assert(import_result(before[last], entry, labels[last], after[last]));
        assert(before[last].extends(after[last - 1]));
        assert(after.drop_last().last() == after[last - 1]);
        assert(after[last - 1].spec_labels().contains(entry)) by {
            assert(import_result(before[last - 1], entry, labels[last - 1], after[last - 1]));
        }
        lemma_prefix_contains(after[last - 1].spec_labels(), before[last].spec_labels(), entry);
        lemma_prefix_contains(after[last - 1].spec_owners(), before[last].spec_owners(), entry);
        assert(after[last] == before[last]);
        assert forall|k: int| 1 <= k < before.len() implies #[trigger] after[k] == before[k] by {
            if k < last {
                assert(after.drop_last()[k] == after[k]);
                assert(before.drop_last()[k] == before[k]);
            }
        }
        assert forall|k: int| 0 <= k < labels.len() implies #[trigger] labels[k] == entry by {
            assert(import_result(before[k], entry, labels[k], after[k]));
        }
        lemma_one_body_per_label(after[last], entry);
    }
}

/// Static allocations never overlap and come at increasing addresses:
/// `before[k]` and `after[k]` are the library around the `k`-th
/// allocation, of `sizes[k]` words at `addresses[k]`, and between two
/// allocations the library may only grow.
pub proof fn lemma_static_allocations_disjoint(
    before: Seq<Library>,
    after: Seq<Library>,
    sizes: Seq<nat>,
    addresses: Seq<nat>,
)
    requires
        before.len() == after.len(),
        sizes.len() == before.len(),
        addresses.len() == before.len(),
        forall|k: int|
            0 <= k < before.len() ==> kmalloc_result(
                #[trigger] before[k],
                sizes[k],
                addresses[k],
                after[k],
            ),
        forall|k: int|
            0 <= k < before.len() - 1 ==> before[k + 1].extends(#[trigger] after[k]),
    ensures
        forall|i: int, j: int|
            0 <= i < j < addresses.len() ==> #[trigger] addresses[i] + sizes[i] <= #[trigger] addresses[j],
    decreases before.len(),
{
    let n = before.len();
    if n >= 2 {
        lemma_static_allocations_disjoint(
            before.drop_last(),
            after.drop_last(),
            sizes.drop_last(),
            addresses.drop_last(),
        );
        let last = n - 1;
        assert(kmalloc_result(before[last], sizes[last], addresses[last], after[last]));
        assert(kmalloc_result(before[last - 1], sizes[last - 1], addresses[last - 1], after[last - 1]));
        assert(before[last].extends(after[last - 1]));
        assert forall|i: int, j: int|
            0 <= i < j < addresses.len() implies #[trigger] addresses[i] + sizes[i] <= #[trigger] addresses[j] by {
            if j < last {
                assert(addresses.drop_last()[i] == addresses[i]);
                assert(addresses.drop_last()[j] == addresses[j]);
                assert(sizes.drop_last()[i] == sizes[i]);
            } else if i < last - 1 {
                assert(addresses.drop_last()[i] == addresses[i]);
                assert(addresses.drop_last()[last - 1] == addresses[last - 1]);
                assert(sizes.drop_last()[i] == sizes[i]);
                assert(addresses[i] + sizes[i] <= addresses[last - 1]);
            }
        }
    }
}

} // verus!
