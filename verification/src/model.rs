//! Row types of the three persisted collections, their mathematical views,
//! and the spec-level vocabulary the contracts are written in.

use vstd::prelude::*;

verus! {

/// Error taxonomy of the composition layer: a storage write fault, a storage
/// read fault, and a missing row where presence was assumed (resolving an
/// ingredient id that a link references but whose definition row is absent is
/// a data-integrity fault, not a normal-flow case).
#[derive(Debug, Clone, Copy, PartialEq, Eq, Structural)]
pub enum OpError {
    WriteError,
    ReadError,
    NotFound,
}

/// Outcome of deleting a recipe: one header row was removed, or none existed.
#[derive(Debug, Clone, Copy, PartialEq, Eq, Structural)]
pub enum DeleteStatus {
    Deleted,
    NotFound,
}

/// A recipe header row. Times are milliseconds since the Unix epoch.
#[derive(Debug)]
pub struct Recipe {
    pub id: u128,
    pub rec_name: String,
    pub inserted_at: i64,
    pub updated_at: i64,
}

/// Mathematical view of a recipe header row.
#[verifier::ext_equal]
pub ghost struct RecipeV {
    pub id: u128,
    pub rec_name: Seq<char>,
    pub inserted_at: i64,
    pub updated_at: i64,
}

impl View for Recipe {
    type V = RecipeV;

    open spec fn view(&self) -> RecipeV {
        RecipeV {
            id: self.id,
            rec_name: self.rec_name@,
            inserted_at: self.inserted_at,
            updated_at: self.updated_at,
        }
    }
}

impl Recipe {
    /// A fresh header row: both timestamps start at the creation time.
    pub fn new(id: u128, name: String, now: i64) -> (r: Recipe)
        ensures
            r@ == (RecipeV { id, rec_name: name@, inserted_at: now, updated_at: now }),
    {
        Recipe { id, rec_name: name, inserted_at: now, updated_at: now }
    }
}

/// An ingredient definition row. Immutable once created: a new row is created
/// on every ingredient addition, even for a repeated name.
#[derive(Debug)]
pub struct Ingredient {
    pub id: u128,
    pub name: String,
}

/// Mathematical view of an ingredient definition row.
#[verifier::ext_equal]
pub ghost struct IngredientV {
    pub id: u128,
    pub name: Seq<char>,
}

impl View for Ingredient {
    type V = IngredientV;

    open spec fn view(&self) -> IngredientV {
        IngredientV { id: self.id, name: self.name@ }
    }
}

impl Ingredient {
    pub fn new(id: u128, name: String) -> (r: Ingredient)
        ensures
            r@ == (IngredientV { id, name: name@ }),
    {
        Ingredient { id, name }
    }
}

/// A link row joining one recipe to one ingredient definition, with the
/// quantity and unit of that ingredient in that recipe. The quantity is
/// carried as an opaque 64-bit code chosen by the service boundary; this
/// layer never computes on it.
#[derive(Debug)]
pub struct RecipeIngredient {
    pub amount: u64,
    pub unit: String,
    pub recid: u128,
    pub indid: u128,
}

/// Mathematical view of a link row.
#[verifier::ext_equal]
pub ghost struct LinkV {
    pub amount: u64,
    pub unit: Seq<char>,
    pub recid: u128,
    pub indid: u128,
}

impl View for RecipeIngredient {
    type V = LinkV;

    open spec fn view(&self) -> LinkV {
        LinkV { amount: self.amount, unit: self.unit@, recid: self.recid, indid: self.indid }
    }
}

impl RecipeIngredient {
    pub fn new(amount: u64, unit: String, recipe: u128, ingredient: u128) -> (r:
        RecipeIngredient)
        ensures
            r@ == (LinkV { amount, unit: unit@, recid: recipe, indid: ingredient }),
    {
        RecipeIngredient { amount, unit, recid: recipe, indid: ingredient }
    }
}

/// One requested ingredient: a name, a quantity code and a unit.
#[derive(Debug)]
pub struct InpIngredient {
    pub name: String,
    pub amount: u64,
    pub unit: String,
}

/// Mathematical view of a requested ingredient triple.
#[verifier::ext_equal]
pub ghost struct TripleV {
    pub name: Seq<char>,
    pub amount: u64,
    pub unit: Seq<char>,
}

impl View for InpIngredient {
    type V = TripleV;

    open spec fn view(&self) -> TripleV {
        TripleV { name: self.name@, amount: self.amount, unit: self.unit@ }
    }
}

/// A requested recipe: a name and its ordered ingredient triples.
pub struct InpRecipe {
    pub name: String,
    pub ingredients: Vec<InpIngredient>,
}

/// A bare recipe identifier, as the service boundary hands it over.
pub struct RecId {
    pub id: u128,
}

/// The triples a sequence of requested ingredients stands for.
pub open spec fn triples_of(inps: Seq<InpIngredient>) -> Seq<TripleV> {
    inps.map_values(|x: InpIngredient| x@)
}

/// Whether some header row carries this recipe id.
pub open spec fn has_recipe(rs: Seq<RecipeV>, id: u128) -> bool {
    exists|i: int| 0 <= i < rs.len() && rs[i].id == id
}

/// Whether some definition row carries this ingredient id.
pub open spec fn has_ingredient(gs: Seq<IngredientV>, id: u128) -> bool {
    exists|i: int| 0 <= i < gs.len() && gs[i].id == id
}

/// Index of the first definition row carrying this ingredient id
/// (meaningful only when `has_ingredient` holds).
pub open spec fn first_ingredient_index(gs: Seq<IngredientV>, id: u128) -> int
    decreases gs.len(),
{
    if gs.len() == 0 {
        0
    } else if gs[0].id == id {
        0
    } else {
        1 + first_ingredient_index(gs.drop_first(), id)
    }
}

/// Name resolved for this ingredient id: the name of the first row that
/// carries it (meaningful only when `has_ingredient` holds).
pub open spec fn ingredient_name_of(gs: Seq<IngredientV>, id: u128) -> Seq<char> {
    gs[first_ingredient_index(gs, id)].name
}

/// The link rows of one recipe, in store order.
pub open spec fn links_of(ls: Seq<LinkV>, rid: u128) -> Seq<LinkV> {
    ls.filter(|l: LinkV| l.recid == rid)
}

/// How many link rows reference this ingredient id.
pub open spec fn link_count(ls: Seq<LinkV>, id: u128) -> nat {
    ls.filter(|l: LinkV| l.indid == id).len()
}

/// Filtering after a push keeps the old result and appends the new element
/// exactly when it satisfies the predicate.
pub proof fn lemma_filter_push<A>(s: Seq<A>, x: A, pred: spec_fn(A) -> bool)
    ensures
        s.push(x).filter(pred) == if pred(x) {
            s.filter(pred).push(x)
        } else {
            s.filter(pred)
        },
{
    reveal(Seq::filter);
    assert(s.push(x).drop_last() =~= s);
    assert(s.push(x).last() == x);
}

/// A filter that rejects every element yields the empty sequence.
pub proof fn lemma_filter_all_false<A>(s: Seq<A>, pred: spec_fn(A) -> bool)
    requires
        forall|i: int| 0 <= i < s.len() ==> !pred(s[i]),
    ensures
        s.filter(pred) == Seq::<A>::empty(),
    decreases s.len(),
{
    reveal(Seq::filter);
    if s.len() > 0 {
        lemma_filter_all_false(s.drop_last(), pred);
    }
}

/// A filter that accepts every element yields the sequence itself.
pub proof fn lemma_filter_all_true<A>(s: Seq<A>, pred: spec_fn(A) -> bool)
    requires
        forall|i: int| 0 <= i < s.len() ==> pred(s[i]),
    ensures
        s.filter(pred) == s,
    decreases s.len(),
{
    reveal(Seq::filter);
    if s.len() > 0 {
        lemma_filter_all_true(s.drop_last(), pred);
        assert(s.drop_last().push(s.last()) =~= s);
    }
}

/// Two filters in a row act as one filter by the conjunction.
pub proof fn lemma_filter_filter<A>(s: Seq<A>, p: spec_fn(A) -> bool, q: spec_fn(A) -> bool)
    ensures
        s.filter(p).filter(q) == s.filter(|x: A| p(x) && q(x)),
    decreases s.len(),
{
    reveal(Seq::filter);
    if s.len() > 0 {
        lemma_filter_filter(s.drop_last(), p, q);
        if p(s.last()) {
            lemma_filter_push(s.drop_last().filter(p), s.last(), q);
        }
    }
}

/// Filtering by predicates that agree on every element gives equal results.
pub proof fn lemma_filter_equiv<A>(s: Seq<A>, p: spec_fn(A) -> bool, q: spec_fn(A) -> bool)
    requires
        forall|i: int| 0 <= i < s.len() ==> p(s[i]) == q(s[i]),
    ensures
        s.filter(p) == s.filter(q),
    decreases s.len(),
{
    reveal(Seq::filter);
    if s.len() > 0 {
        lemma_filter_equiv(s.drop_last(), p, q);
    }
}

/// Every element of a filtered sequence is an element of the original.
pub proof fn lemma_filter_sub<A>(s: Seq<A>, pred: spec_fn(A) -> bool, i: int)
    requires
        0 <= i < s.filter(pred).len(),
    ensures
        exists|j: int| 0 <= j < s.len() && s[j] == s.filter(pred)[i],
    decreases s.len(),
{
    reveal(Seq::filter);
    if s.len() > 0 {
        let f = s.filter(pred);
        let fd = s.drop_last().filter(pred);
        if pred(s.last()) && i == f.len() - 1 {
            assert(s[s.len() - 1] == f[i]);
        } else {
            lemma_filter_sub(s.drop_last(), pred, i);
            let j = choose|j: int| 0 <= j < s.drop_last().len() && s.drop_last()[j] == fd[i];
            assert(s[j] == f[i]);
        }
    }
}

/// A filter with exactly one accepted index yields exactly that element.
pub proof fn lemma_filter_single<A>(s: Seq<A>, pred: spec_fn(A) -> bool, k: int)
    requires
        0 <= k < s.len(),
        pred(s[k]),
        forall|j: int| 0 <= j < s.len() && j != k ==> !pred(s[j]),
    ensures
        s.filter(pred) == seq![s[k]],
    decreases s.len(),
{
    reveal(Seq::filter);
    if k == s.len() - 1 {
        lemma_filter_all_false(s.drop_last(), pred);
        assert(Seq::<A>::empty().push(s[k]) =~= seq![s[k]]);
    } else {
        lemma_filter_single(s.drop_last(), pred, k);
        assert(s.drop_last()[k] == s[k]);
    }
}

/// Where an id is present, its first index is a real index, carries the id,
/// and nothing before it does.
pub proof fn lemma_first_index_props(gs: Seq<IngredientV>, id: u128)
    requires
        has_ingredient(gs, id),
    ensures
        0 <= first_ingredient_index(gs, id) < gs.len(),
        gs[first_ingredient_index(gs, id)].id == id,
        forall|j: int| 0 <= j < first_ingredient_index(gs, id) ==> gs[j].id != id,
    decreases gs.len(),
{
    if gs.len() > 0 && gs[0].id != id {
        assert(has_ingredient(gs.drop_first(), id)) by {
            let i = choose|i: int| 0 <= i < gs.len() && gs[i].id == id;
            assert(gs.drop_first()[i - 1].id == id);
        }
        lemma_first_index_props(gs.drop_first(), id);
        let f = first_ingredient_index(gs.drop_first(), id);
        assert(gs[1 + f] == gs.drop_first()[f]);
        assert(forall|j: int|
            1 <= j < 1 + f ==> gs[j] == gs.drop_first()[j - 1] && gs.drop_first()[j - 1].id != id);
    }
}

/// Resolving an id in a concatenation where the front lacks it resolves it
/// in the back, shifted past the front.
pub proof fn lemma_find_in_append(a: Seq<IngredientV>, b: Seq<IngredientV>, id: u128)
    requires
        !has_ingredient(a, id),
    ensures
        has_ingredient(a + b, id) == has_ingredient(b, id),
        has_ingredient(b, id) ==> first_ingredient_index(a + b, id) == a.len()
            + first_ingredient_index(b, id),
        has_ingredient(b, id) ==> ingredient_name_of(a + b, id) == ingredient_name_of(b, id),
    decreases a.len(),
{
    if a.len() == 0 {
        assert(a + b =~= b);
    } else {
        assert(a[0].id != id);
        assert((a + b)[0] == a[0]);
        assert((a + b).drop_first() =~= a.drop_first() + b);
        assert(!has_ingredient(a.drop_first(), id)) by {
            if has_ingredient(a.drop_first(), id) {
                let i = choose|i: int|
                    0 <= i < a.drop_first().len() && a.drop_first()[i].id == id;
                assert(a[i + 1].id == id);
            }
        }
        lemma_find_in_append(a.drop_first(), b, id);
        if has_ingredient(a + b, id) {
            let i = choose|i: int| 0 <= i < (a + b).len() && (a + b)[i].id == id;
            assert(i >= 1);
            assert((a.drop_first() + b)[i - 1].id == id);
        }
        if has_ingredient(b, id) {
            lemma_first_index_props(b, id);
            let fi = first_ingredient_index(b, id);
            assert((a + b)[a.len() + fi] == b[fi]);
        }
    }
}

} // verus!
