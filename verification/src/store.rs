//! The knowledge base: documents with their embeddings, and the search for
//! the documents nearest to a query.
//!
//! An embedding is held in fixed point: every component is an integer, and
//! the caller picks the scale when it converts what the embedding model
//! returns. Distances are squared Euclidean distances, computed exactly.

use vstd::prelude::*;
use crate::ranking::{
    is_selection, lemma_selection_exists, picked, select_smallest, selection, selection_len,
};

verus! {

/// A unit of knowledge: a text and its embedding.
#[derive(Debug, Clone, PartialEq, Eq)]
pub struct Document {
    pub content: String,
    pub embedding: Vec<i32>,
}

/// Why the store refused a vector.
#[derive(PartialEq, Eq, Structural, Clone, Copy, Debug)]
pub enum StoreError {
    /// The vector has `found` components where the store holds vectors of
    /// `expected`.
    DimensionMismatch { expected: usize, found: usize },
}

/// The squared distance between the first `n` components of two vectors.
pub open spec fn squared_distance_upto(a: Seq<i32>, b: Seq<i32>, n: nat) -> nat
    decreases n,
{
    if n == 0 {
        0
    } else {
        let gap = a[n - 1] - b[n - 1];
        squared_distance_upto(a, b, (n - 1) as nat) + (gap * gap) as nat
    }
}

/// The squared Euclidean distance between two vectors of one dimension.
pub open spec fn squared_distance(a: Seq<i32>, b: Seq<i32>) -> nat
    recommends
        a.len() == b.len(),
{
    squared_distance_upto(a, b, a.len())
}

/// The distance of every document of a store to a query.
pub open spec fn distances(documents: Seq<Document>, query: Seq<i32>) -> Seq<u128> {
    Seq::new(
        documents.len(),
        |at: int| squared_distance(documents[at].embedding@, query) as u128,
    )
}

/// The positions of the `k` documents nearest to a query, nearest first.
/// Documents at one distance come in the order in which they were stored.
pub open spec fn nearest_positions(documents: Seq<Document>, query: Seq<i32>, k: nat) -> Seq<
    usize,
> {
    selection(distances(documents, query), k)
}

/// The `k` documents nearest to a query, nearest first.
pub open spec fn nearest_documents(documents: Seq<Document>, query: Seq<i32>, k: nat) -> Seq<
    Document,
> {
    Seq::new(
        nearest_positions(documents, query, k).len(),
        |rank: int| documents[nearest_positions(documents, query, k)[rank] as int],
    )
}

/// The position, from `from` on, of the first document whose embedding has
/// not `dimension` components; the length of the list if there is none.
pub open spec fn first_misfit_from(documents: Seq<Document>, dimension: nat, from: int) -> int
    decreases documents.len() - from,
{
    if from < 0 || from >= documents.len() {
        documents.len() as int
    } else if documents[from].embedding@.len() != dimension {
        from
    } else {
        first_misfit_from(documents, dimension, from + 1)
    }
}

/// The position of the first document whose embedding has not `dimension`
/// components; the length of the list if all have.
pub open spec fn first_misfit(documents: Seq<Document>, dimension: nat) -> int {
    first_misfit_from(documents, dimension, 0)
}

/// The first misfit lies in the list or at its end, it is a misfit, and no
/// document before it is one.
pub proof fn lemma_first_misfit(documents: Seq<Document>, dimension: nat, from: int)
    requires
        0 <= from <= documents.len(),
    ensures
        from <= first_misfit_from(documents, dimension, from) <= documents.len(),
        first_misfit_from(documents, dimension, from) < documents.len() ==> documents[first_misfit_from(
            documents,
            dimension,
            from,
        )].embedding@.len() != dimension,
        forall|at: int|
            from <= at < first_misfit_from(documents, dimension, from) ==> (
            #[trigger] documents[at]).embedding@.len() == dimension,
    decreases documents.len() - from,
{
    if from < documents.len() && documents[from].embedding@.len() == dimension {
        lemma_first_misfit(documents, dimension, from + 1);
    }
}

/// The documents that a list of borrows points to.
pub open spec fn referents(borrowed: Seq<&Document>) -> Seq<Document> {
    Seq::new(borrowed.len(), |at: int| *borrowed[at])
}

/// No squared gap between two components exceeds this.
spec fn max_squared_gap() -> nat {
    0xffff_ffff * 0xffff_ffff
}

proof fn lemma_squared_distance_bound(a: Seq<i32>, b: Seq<i32>, n: nat)
    ensures
        squared_distance_upto(a, b, n) <= n * max_squared_gap(),
    decreases n,
{
    if n > 0 {
        lemma_squared_distance_bound(a, b, (n - 1) as nat);
        let gap = a[n - 1] - b[n - 1];
        assert(0 <= gap * gap <= 0xffff_ffff * 0xffff_ffff) by (nonlinear_arith)
            requires
                -0xffff_ffff <= gap <= 0xffff_ffff,
        ;
        assert(n * max_squared_gap() == (n - 1) * max_squared_gap() + max_squared_gap())
            by (nonlinear_arith);
    }
}

/// The squared distance between vectors that fit in memory fits in 128 bits.
pub proof fn lemma_squared_distance_fits(a: Seq<i32>, b: Seq<i32>, n: nat)
    requires
        n <= usize::MAX,
    ensures
        squared_distance_upto(a, b, n) <= u128::MAX,
{
    lemma_squared_distance_bound(a, b, n);
    assert(n * max_squared_gap() <= 0xffff_ffff_ffff_ffff * max_squared_gap()) by (nonlinear_arith)
        requires
            n <= 0xffff_ffff_ffff_ffff,
    ;
}

/// Computes the squared Euclidean distance between two vectors. Vectors of
/// different dimensions have no distance.
pub fn distance(a: &Vec<i32>, b: &Vec<i32>) -> (measured: Result<u128, StoreError>)
    ensures
        a@.len() == b@.len() ==> measured == Ok::<u128, StoreError>(
            squared_distance(a@, b@) as u128,
        ) && squared_distance(a@, b@) <= u128::MAX,
        a@.len() != b@.len() ==> measured == Err::<u128, StoreError>(
            StoreError::DimensionMismatch { expected: a@.len() as usize, found: b@.len() as usize },
        ),
{
    if a.len() == b.len() {
        Ok(measure(a, b))
    } else {
        Err(StoreError::DimensionMismatch { expected: a.len(), found: b.len() })
    }
}

/// Computes the squared Euclidean distance between two vectors of one
/// dimension.
fn measure(a: &Vec<i32>, b: &Vec<i32>) -> (squared: u128)
    requires
        a@.len() == b@.len(),
    ensures
        squared == squared_distance(a@, b@),
{
    let mut squared: u128 = 0;
    let mut n: usize = 0;
    while n < a.len()
        invariant
            n <= a.len(),
            a.len() == b.len(),
            squared == squared_distance_upto(a@, b@, n as nat),
        decreases a.len() - n,
    {
        let gap: i128 = a[n] as i128 - b[n] as i128;
        proof {
            lemma_squared_distance_fits(a@, b@, (n + 1) as nat);
            assert(gap * gap <= 0xffff_ffff * 0xffff_ffff) by (nonlinear_arith)
                requires
                    -0xffff_ffff <= gap <= 0xffff_ffff,
            ;
            assert(gap * gap >= 0) by (nonlinear_arith);
        }
        squared = squared + (gap * gap) as u128;
        n = n + 1;
    }
    squared
}

/// The documents of the knowledge base, in the order in which they were
/// stored. All embeddings have the dimension that the store was made for.
pub struct VectorStore {
    dimension: usize,
    documents: Vec<Document>,
}

impl View for VectorStore {
    type V = Seq<Document>;

    closed spec fn view(&self) -> Seq<Document> {
        self.documents@
    }
}

impl VectorStore {
    /// The number of components of every stored embedding.
    pub closed spec fn dimension(&self) -> nat {
        self.dimension as nat
    }

    #[verifier::type_invariant]
    spec fn uniform(&self) -> bool {
        forall|at: int|
            0 <= at < self.documents@.len() ==> (#[trigger] self.documents@[at]).embedding@.len()
                == self.dimension
    }

    /// An empty store for embeddings of `dimension` components.
    pub fn new(dimension: usize) -> (store: VectorStore)
        ensures
            store.dimension() == dimension,
            store@ == Seq::<Document>::empty(),
    {
        VectorStore { dimension, documents: Vec::new() }
    }

    /// Number of documents stored.
    pub fn len(&self) -> (count: usize)
        ensures
            count == self@.len(),
    {
        self.documents.len()
    }

    /// The number of components of every stored embedding.
    pub fn embedding_dimension(&self) -> (dimension: usize)
        ensures
            dimension == self.dimension(),
            forall|at: int|
                0 <= at < self@.len() ==> (#[trigger] self@[at]).embedding@.len() == dimension,
    {
        proof {
            use_type_invariant(self);
        }
        self.dimension
    }

    /// The document stored at `at`, counting from the oldest.
    pub fn document(&self, at: usize) -> (document: Option<&Document>)
        ensures
            at < self@.len() ==> document == Some(&self@[at as int]),
            at >= self@.len() ==> document is None,
    {
        if at < self.documents.len() {
            Some(&self.documents[at])
        } else {
            None
        }
    }

    /// Stores a document behind those already there. A document whose
    /// embedding has another dimension is refused and the store stays as it is.
    pub fn upsert(&mut self, document: Document) -> (stored: Result<(), StoreError>)
        ensures
            final(self).dimension() == old(self).dimension(),
            document.embedding@.len() == old(self).dimension() ==> stored is Ok && final(self)@
                == old(self)@.push(document),
            document.embedding@.len() != old(self).dimension() ==> stored == Err::<(), StoreError>(
                StoreError::DimensionMismatch {
                    expected: old(self).dimension() as usize,
                    found: document.embedding@.len() as usize,
                },
            ) && final(self)@ == old(self)@,
    {
        if document.embedding.len() == self.dimension {
            proof {
                use_type_invariant(&*self);
            }
            let mut documents: Vec<Document> = Vec::new();
            core::mem::swap(&mut self.documents, &mut documents);
            documents.push(document);
            core::mem::swap(&mut self.documents, &mut documents);
            Ok(())
        } else {
            Err(
                StoreError::DimensionMismatch {
                    expected: self.dimension,
                    found: document.embedding.len(),
                },
            )
        }
    }

    /// Stores documents one after the other and stops at the first whose
    /// embedding has another dimension than the store's. Returns the number
    /// stored if that is all of them, and the reason for stopping otherwise;
    /// the documents before the one refused stay stored.
    pub fn extend(&mut self, documents: Vec<Document>) -> (stored: Result<usize, StoreError>)
        ensures
            final(self).dimension() == old(self).dimension(),
            final(self)@ == old(self)@ + documents@.take(
                first_misfit(documents@, old(self).dimension()),
            ),
            match stored {
                Ok(count) => count == documents@.len() && first_misfit(
                    documents@,
                    old(self).dimension(),
                ) == documents@.len(),
                Err(reason) => first_misfit(documents@, old(self).dimension()) < documents@.len()
                    && reason == (StoreError::DimensionMismatch {
                    expected: old(self).dimension() as usize,
                    found: documents@[first_misfit(
                        documents@,
                        old(self).dimension(),
                    )].embedding@.len() as usize,
                }),
            },
    {
        let ghost all = documents@;
        let ghost before = self@;
        let ghost dimension = self.dimension();
        let count = documents.len();
        proof {
            use_type_invariant(&*self);
        }
        let mut kept: Vec<Document> = Vec::new();
        core::mem::swap(&mut self.documents, &mut kept);
        for document in all_documents: documents
            invariant
                all_documents.seq() == all,
                all == documents@,
                before == old(self)@,
                dimension == old(self).dimension(),
                count == all.len(),
                first_misfit_from(all, dimension, all_documents.index()) == first_misfit(
                    all,
                    dimension,
                ),
                kept@ == before + all.take(all_documents.index()),
                forall|i: int|
                    0 <= i < kept@.len() ==> (#[trigger] kept@[i]).embedding@.len() == dimension,
                self.dimension == dimension,
                self.documents@.len() == 0,
        {
            if document.embedding.len() != self.dimension {
                let found = document.embedding.len();
                core::mem::swap(&mut self.documents, &mut kept);
                return Err(StoreError::DimensionMismatch { expected: self.dimension, found });
            }
            kept.push(document);
        }
        core::mem::swap(&mut self.documents, &mut kept);
        Ok(count)
    }

    /// Removes every document.
    pub fn reset(&mut self)
        ensures
            final(self).dimension() == old(self).dimension(),
            final(self)@ == Seq::<Document>::empty(),
    {
        let mut documents: Vec<Document> = Vec::new();
        core::mem::swap(&mut self.documents, &mut documents);
    }

    /// The `k` stored documents nearest to `query`, nearest first. A query of
    /// another dimension than the store's is refused.
    pub fn nearest<'a>(&'a self, query: &Vec<i32>, k: usize) -> (found: Result<
        Vec<&'a Document>,
        StoreError,
    >)
        ensures
            query@.len() == self.dimension() ==> found is Ok && referents(found->Ok_0@)
                == nearest_documents(self@, query@, k as nat),
            query@.len() != self.dimension() ==> found == Err::<Vec<&'a Document>, StoreError>(
                StoreError::DimensionMismatch {
                    expected: self.dimension() as usize,
                    found: query@.len() as usize,
                },
            ),
    {
        if query.len() != self.dimension {
            return Err(
                StoreError::DimensionMismatch { expected: self.dimension, found: query.len() },
            );
        }
        proof {
            use_type_invariant(self);
        }
        let mut keys: Vec<u128> = Vec::new();
        let mut at: usize = 0;
        while at < self.documents.len()
            invariant
                at <= self.documents.len(),
                query.len() == self.dimension,
                forall|i: int|
                    0 <= i < self.documents@.len() ==> (
                    #[trigger] self.documents@[i]).embedding@.len() == self.dimension,
                keys@ == distances(self.documents@, query@).take(at as int),
            decreases self.documents.len() - at,
        {
            keys.push(measure(&self.documents[at].embedding, query));
            at = at + 1;
        }
        proof {
            assert(keys@ =~= distances(self.documents@, query@));
        }
        let picks = select_smallest(&keys, k);
        let mut found: Vec<&'a Document> = Vec::new();
        let mut rank: usize = 0;
        while rank < picks.len()
            invariant
                rank <= picks.len(),
                is_selection(distances(self.documents@, query@), k as nat, picks@),
                found@.len() == rank,
                forall|r: int|
                    0 <= r < rank ==> *#[trigger] found@[r] == self.documents@[picks@[r] as int],
            decreases picks.len() - rank,
        {
            found.push(&self.documents[picks[rank]]);
            rank = rank + 1;
        }
        Ok(found)
    }
}

/// A search returns at most `k` documents, each of them a document of the
/// store and none of them twice, ordered from nearer to farther, and leaves
/// no document out that is nearer than one it returns.
pub proof fn lemma_nearest_documents(documents: Seq<Document>, query: Seq<i32>, k: nat)
    requires
        documents.len() <= usize::MAX,
    ensures
        nearest_documents(documents, query, k).len() == selection_len(documents.len(), k),
        nearest_documents(documents, query, k).len() <= k,
        forall|rank: int|
            0 <= rank < nearest_documents(documents, query, k).len() ==> {
                &&& #[trigger] nearest_positions(documents, query, k)[rank] < documents.len()
                &&& nearest_documents(documents, query, k)[rank] == documents[nearest_positions(
                    documents,
                    query,
                    k,
                )[rank] as int]
            },
        forall|nearer: int, farther: int|
            0 <= nearer < farther < nearest_documents(documents, query, k).len() ==> {
                &&& #[trigger] nearest_positions(documents, query, k)[nearer]
                    != #[trigger] nearest_positions(documents, query, k)[farther]
                &&& distances(documents, query)[nearest_positions(documents, query, k)[nearer] as int]
                    <= distances(documents, query)[nearest_positions(
                    documents,
                    query,
                    k,
                )[farther] as int]
            },
        forall|rank: int, at: int|
            0 <= rank < nearest_documents(documents, query, k).len() && 0 <= at < documents.len()
                && !#[trigger] picked(nearest_positions(documents, query, k), at) ==> distances(
                documents,
                query,
            )[#[trigger] nearest_positions(documents, query, k)[rank] as int] <= distances(
                documents,
                query,
            )[at],
{
    let keys = distances(documents, query);
    lemma_selection_exists(keys, k);
}

} // verus!
