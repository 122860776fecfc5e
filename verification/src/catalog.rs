//! The sound catalog: an in-memory, deduplicated index of clip names.

use vstd::prelude::*;
use crate::util::vec_contains_str;

verus! {

/// Why a catalog operation could not produce a clip name.
#[derive(Clone, Copy, Debug, PartialEq, Eq, Structural)]
pub enum CatalogError {
    /// The catalog holds no clips, so none can be picked.
    EmptyCatalog,
}

/// The catalog a listing loads into: each name of the listing once, at the
/// position of its first occurrence, later occurrences dropped.
pub open spec fn dedup_first(listing: Seq<Seq<char>>) -> Seq<Seq<char>>
    decreases listing.len(),
{
    if listing.len() == 0 {
        Seq::empty()
    } else {
        let rest = dedup_first(listing.drop_last());
        if rest.contains(listing.last()) {
            rest
        } else {
            rest.push(listing.last())
        }
    }
}

/// Deduplication keeps exactly the names of the listing: membership is
/// unchanged.
pub proof fn lemma_dedup_first_membership(listing: Seq<Seq<char>>)
    ensures
        forall|n: Seq<char>| dedup_first(listing).contains(n) == listing.contains(n),
    decreases listing.len(),
{
    if listing.len() > 0 {
        let head = listing.drop_last();
        lemma_dedup_first_membership(head);
        assert forall|n: Seq<char>| dedup_first(listing).contains(n) == listing.contains(n) by {
            let rest = dedup_first(head);
            if listing.contains(n) {
                let k = choose|k: int| 0 <= k < listing.len() && listing[k] == n;
                if k < listing.len() - 1 {
                    assert(head[k] == n);
                    assert(head.contains(n));
                    assert(rest.contains(n));
                    if !rest.contains(listing.last()) {
                        let j = choose|j: int| 0 <= j < rest.len() && rest[j] == n;
                        assert(rest.push(listing.last())[j] == n);
                    }
                } else {
                    if rest.contains(n) {
                    } else {
                        assert(rest.push(listing.last()).last() == n);
                    }
                }
            }
            if dedup_first(listing).contains(n) {
                if rest.contains(listing.last()) {
                    assert(head.contains(n));
                    let j = choose|j: int| 0 <= j < head.len() && head[j] == n;
                    assert(listing[j] == n);
                } else {
                    let k = choose|k: int|
                        0 <= k < rest.push(listing.last()).len()
                            && rest.push(listing.last())[k] == n;
                    if k < rest.len() {
                        assert(rest[k] == n);
                        assert(head.contains(n));
                        let j = choose|j: int| 0 <= j < head.len() && head[j] == n;
                        assert(listing[j] == n);
                    } else {
                        assert(n == listing.last());
                    }
                }
            }
        }
    }
}

/// Deduplication leaves no duplicates behind.
pub proof fn lemma_dedup_first_no_duplicates(listing: Seq<Seq<char>>)
    ensures
        dedup_first(listing).no_duplicates(),
    decreases listing.len(),
{
    if listing.len() > 0 {
        let head = listing.drop_last();
        lemma_dedup_first_no_duplicates(head);
        let rest = dedup_first(head);
        if !rest.contains(listing.last()) {
            assert forall|p: int, q: int|
                0 <= p < rest.push(listing.last()).len()
                    && 0 <= q < rest.push(listing.last()).len() && p != q implies
                rest.push(listing.last())[p] != rest.push(listing.last())[q] by {
                if p < rest.len() && q < rest.len() {
                    assert(rest.push(listing.last())[p] == rest[p]);
                    assert(rest.push(listing.last())[q] == rest[q]);
                } else if p < rest.len() {
                    assert(rest.push(listing.last())[p] == rest[p]);
                    if rest[p] == listing.last() {
                        assert(rest.contains(listing.last()));
                    }
                } else {
                    assert(rest.push(listing.last())[q] == rest[q]);
                    if rest[q] == listing.last() {
                        assert(rest.contains(listing.last()));
                    }
                }
            }
        }
    }
}

/// A listing without duplicates loads as itself: deduplication changes
/// nothing.
pub proof fn lemma_dedup_first_fixpoint(listing: Seq<Seq<char>>)
    requires
        listing.no_duplicates(),
    ensures
        dedup_first(listing) == listing,
    decreases listing.len(),
{
    if listing.len() == 0 {
        assert(dedup_first(listing) =~= listing);
    } else {
        let head = listing.drop_last();
        lemma_dedup_first_fixpoint(head);
        assert(!head.contains(listing.last())) by {
            if head.contains(listing.last()) {
                let k = choose|k: int| 0 <= k < head.len() && head[k] == listing.last();
                assert(listing[k] == listing[listing.len() - 1]);
            }
        }
        assert(dedup_first(listing) =~= listing);
    }
}

/// Resynchronizing twice with an unchanged store yields the same catalog:
/// reloading a deduplicated listing reproduces it exactly.
pub proof fn lemma_resync_idempotent(listing: Seq<Seq<char>>)
    ensures
        dedup_first(dedup_first(listing)) == dedup_first(listing),
{
    lemma_dedup_first_no_duplicates(listing);
    lemma_dedup_first_fixpoint(dedup_first(listing));
}

/// A catalog built by `load` or `resync` from a listing answers `has` (and
/// so `contains`) with true for exactly the names of that listing: every
/// clip of the store is found, and nothing else is.
pub proof fn lemma_loaded_catalog_complete(c: SoundCatalog, listing: Seq<Seq<char>>)
    requires
        c@ == dedup_first(listing),
    ensures
        forall|n: Seq<char>| c.has(n) == listing.contains(n),
{
    lemma_dedup_first_membership(listing);
}

/// In-memory index of the clip names a clip store offers. Lookups never
/// touch the store: the catalog is built once from a listing of the store
/// and replaced wholesale on resync.
pub struct SoundCatalog {
    names: Vec<String>,
}

impl View for SoundCatalog {
    type V = Seq<Seq<char>>;

    closed spec fn view(&self) -> Seq<Seq<char>> {
        self.names.deep_view()
    }
}

/// Relies on rand::Rng::gen_range over rand::thread_rng: a value sampled
/// from the half-open range below `n`, which is nonempty since `n >= 1`.
#[verifier::external_body]
fn random_below(n: usize) -> (r: usize)
    requires
        n >= 1,
    ensures
        r < n,
{
    rand::Rng::gen_range(&mut rand::thread_rng(), 0..n)
}

impl SoundCatalog {
    /// The catalog never lists a clip name twice.
    pub open spec fn wf(&self) -> bool {
        self@.no_duplicates()
    }

    /// Whether the catalog lists this clip name.
    pub open spec fn has(&self, name: Seq<char>) -> bool {
        self@.contains(name)
    }

    /// Builds the catalog from a listing of the clip store's names,
    /// keeping each name once, in order of first occurrence.
    pub fn load(listing: Vec<String>) -> (c: SoundCatalog)
        ensures
            c.wf(),
            c@ == dedup_first(listing.deep_view()),
    {
        let mut c = SoundCatalog { names: Vec::new() };
        let mut i: usize = 0;
        proof {
            lemma_dedup_first_no_duplicates(listing.deep_view());
        }
        while i < listing.len()
            invariant
                i <= listing@.len(),
                c@ == dedup_first(listing.deep_view().take(i as int)),
            decreases listing@.len() - i,
        {
            let ghost lv = listing.deep_view();
            let ghost prev = c@;
            let hit = vec_contains_str(&c.names, listing[i].as_str());
            if !hit {
                c.names.push(listing[i].clone());
                proof {
                    assert(c@ =~= prev.push(lv[i as int]));
                }
            }
            proof {
                assert(lv.take(i + 1).drop_last() =~= lv.take(i as int));
                assert(lv.take(i + 1).last() == lv[i as int]);
            }
            i += 1;
        }
        proof {
            assert(listing.deep_view().take(listing.deep_view().len() as int)
                =~= listing.deep_view());
        }
        c
    }

    /// Re-scans are the caller's business: given a fresh listing of the
    /// store, replaces the whole catalog with its deduplicated names.
    pub fn resync(&mut self, listing: Vec<String>)
        ensures
            final(self).wf(),
            final(self)@ == dedup_first(listing.deep_view()),
    {
        *self = SoundCatalog::load(listing);
    }

    /// Membership test against the in-memory index alone.
    pub fn contains(&self, name: &str) -> (r: bool)
        ensures
            r == self.has(name@),
    {
        vec_contains_str(&self.names, name)
    }

    /// How many clips the catalog lists.
    pub fn len(&self) -> (n: usize)
        ensures
            n == self@.len(),
    {
        self.names.len()
    }

    /// Whether the catalog lists no clips at all.
    pub fn is_empty(&self) -> (r: bool)
        ensures
            r == (self@.len() == 0),
    {
        self.names.len() == 0
    }

    /// All clip names, in the catalog's stable listing order.
    pub fn list_all(&self) -> (names: &Vec<String>)
        ensures
            names.deep_view() == self@,
    {
        &self.names
    }

    /// Picks one clip name from the catalog; on an empty catalog this
    /// fails with `EmptyCatalog` instead of crashing. Every returned name
    /// is listed in the catalog.
    pub fn pick_random(&self) -> (r: Result<String, CatalogError>)
        ensures
            self@.len() == 0 ==> r == Err::<String, CatalogError>(CatalogError::EmptyCatalog),
            self@.len() > 0 ==> (r matches Ok(name) && self.has(name@)),
    {
        if self.names.len() == 0 {
            Err(CatalogError::EmptyCatalog)
        } else {
            let i = random_below(self.names.len());
            let name = self.names[i].clone();
            proof {
                assert(self@[i as int] == name@);
            }
            Ok(name)
        }
    }
}

} // verus!
