//! The composition manager: the one writer that spans all three stores. It
//! implements create, read, replace and delete of a full recipe aggregate
//! with bulk set-based writes and a delete-then-reinsert protocol, and its
//! contracts pin the exact state of all three collections after each call.

use vstd::prelude::*;

use crate::model::{
    DeleteStatus, Ingredient, IngredientV, InpIngredient, OpError, Recipe, RecipeIngredient,
    RecipeV, LinkV, TripleV, has_ingredient, has_recipe, ingredient_name_of, link_count,
    lemma_filter_all_true, lemma_filter_equiv, lemma_filter_filter, links_of, triples_of,
};
use crate::store::{IngredientStore, LinkStore, RecipeStore, replace_fields_spec};

verus! {

/// The three collections a recipe aggregate spans.
pub struct Store {
    pub recipes: RecipeStore,
    pub ingredients: IngredientStore,
    pub links: LinkStore,
}

/// Mathematical view of the whole persisted state.
#[verifier::ext_equal]
pub ghost struct StoreV {
    pub recipes: Seq<RecipeV>,
    pub ingredients: Seq<IngredientV>,
    pub links: Seq<LinkV>,
}

impl View for Store {
    type V = StoreV;

    open spec fn view(&self) -> StoreV {
        StoreV { recipes: self.recipes@, ingredients: self.ingredients@, links: self.links@ }
    }
}

impl Store {
    /// A store with no rows at all.
    pub fn new() -> (s: Store)
        ensures
            s@ == empty_store(),
    {
        Store {
            recipes: RecipeStore::new(),
            ingredients: IngredientStore::new(),
            links: LinkStore::new(),
        }
    }
}

/// The state with no rows at all.
pub open spec fn empty_store() -> StoreV {
    StoreV {
        recipes: Seq::<RecipeV>::empty(),
        ingredients: Seq::<IngredientV>::empty(),
        links: Seq::<LinkV>::empty(),
    }
}

/// The definition rows created for the given triples, paired positionally
/// with the given fresh ids.
pub open spec fn new_ingredient_rows(inps: Seq<TripleV>, ids: Seq<u128>) -> Seq<IngredientV> {
    Seq::new(inps.len(), |i: int| IngredientV { id: ids[i], name: inps[i].name })
}

/// The link rows created for the given triples, all carrying the one recipe
/// id and paired positionally with the same fresh ingredient ids.
pub open spec fn new_link_rows(inps: Seq<TripleV>, rid: u128, ids: Seq<u128>) -> Seq<LinkV> {
    Seq::new(
        inps.len(),
        |i: int| LinkV { amount: inps[i].amount, unit: inps[i].unit, recid: rid, indid: ids[i] },
    )
}

/// State after creating a recipe aggregate: one pushed header row and the
/// bulk-inserted definition and link rows.
pub open spec fn create_spec(
    s: StoreV,
    name: Seq<char>,
    inps: Seq<TripleV>,
    rid: u128,
    ids: Seq<u128>,
    now: i64,
) -> StoreV {
    StoreV {
        recipes: s.recipes.push(
            RecipeV { id: rid, rec_name: name, inserted_at: now, updated_at: now },
        ),
        ingredients: s.ingredients + new_ingredient_rows(inps, ids),
        links: s.links + new_link_rows(inps, rid, ids),
    }
}

/// The ingredient ids referenced by the recipe's current links: what the
/// removal protocol deletes.
pub open spec fn removed_ids(s: StoreV, rid: u128) -> Seq<u128> {
    links_of(s.links, rid).map_values(|l: LinkV| l.indid)
}

/// State after the removal protocol: every link referencing one of the
/// recipe's ingredient ids is gone, and so is each of those definition rows.
/// Headers are untouched.
pub open spec fn remove_spec(s: StoreV, rid: u128) -> StoreV {
    let ids = removed_ids(s, rid);
    StoreV {
        recipes: s.recipes,
        ingredients: s.ingredients.filter(|g: IngredientV| !ids.contains(g.id)),
        links: s.links.filter(|l: LinkV| !ids.contains(l.indid)),
    }
}

/// State after a full replace: header fields updated (a no-op for an unknown
/// id), the old ingredient set removed wholesale, the new one bulk-inserted
/// against the same recipe id.
pub open spec fn replace_spec(
    s: StoreV,
    rid: u128,
    name: Seq<char>,
    inps: Seq<TripleV>,
    ids: Seq<u128>,
    now: i64,
) -> StoreV {
    let headered = StoreV {
        recipes: replace_fields_spec(s.recipes, rid, name, now),
        ingredients: s.ingredients,
        links: s.links,
    };
    let cleared = remove_spec(headered, rid);
    StoreV {
        recipes: cleared.recipes,
        ingredients: cleared.ingredients + new_ingredient_rows(inps, ids),
        links: cleared.links + new_link_rows(inps, rid, ids),
    }
}

/// State after deleting a recipe aggregate: the removal protocol, then the
/// header row is gone.
pub open spec fn delete_spec(s: StoreV, rid: u128) -> StoreV {
    let cleared = remove_spec(s, rid);
    StoreV {
        recipes: cleared.recipes.filter(|r: RecipeV| r.id != rid),
        ingredients: cleared.ingredients,
        links: cleared.links,
    }
}

/// Whether every link of the recipe resolves to an existing definition row.
pub open spec fn resolves(s: StoreV, rid: u128) -> bool {
    forall|i: int|
        0 <= i < links_of(s.links, rid).len() ==> has_ingredient(
            s.ingredients,
            links_of(s.links, rid)[i].indid,
        )
}

/// The triples a read of the recipe returns: its links in store order, each
/// zipped with the name its definition row resolves to.
pub open spec fn read_spec(s: StoreV, rid: u128) -> Seq<TripleV> {
    links_of(s.links, rid).map_values(
        |l: LinkV|
            TripleV {
                name: ingredient_name_of(s.ingredients, l.indid),
                amount: l.amount,
                unit: l.unit,
            },
    )
}

/// No header row carries this id yet.
pub open spec fn fresh_recipe_id(s: StoreV, id: u128) -> bool {
    !has_recipe(s.recipes, id)
}

/// The ids are pairwise distinct and none is carried by a definition row yet.
pub open spec fn fresh_ingredient_ids(gs: Seq<IngredientV>, ids: Seq<u128>) -> bool {
    &&& forall|i: int| 0 <= i < ids.len() ==> !has_ingredient(gs, ids[i])
    &&& forall|i: int, j: int| 0 <= i < j < ids.len() ==> ids[i] != ids[j]
}

/// No two header rows share an id.
pub open spec fn unique_recipe_ids(rs: Seq<RecipeV>) -> bool {
    forall|i: int, j: int| 0 <= i < j < rs.len() ==> rs[i].id != rs[j].id
}

/// No two definition rows share an id.
pub open spec fn unique_ingredient_ids(gs: Seq<IngredientV>) -> bool {
    forall|i: int, j: int| 0 <= i < j < gs.len() ==> gs[i].id != gs[j].id
}

/// Referential integrity of the whole state: every link references an
/// existing header and an existing definition row, and every definition row
/// is referenced by exactly one link (no orphans, no sharing).
pub open spec fn orphan_free(s: StoreV) -> bool {
    &&& forall|i: int|
        0 <= i < s.links.len() ==> has_recipe(s.recipes, #[trigger] s.links[i].recid)
            && has_ingredient(s.ingredients, s.links[i].indid)
    &&& forall|i: int|
        0 <= i < s.ingredients.len() ==> link_count(s.links, #[trigger] s.ingredients[i].id) == 1
}

/// The invariant every fault-free operation sequence maintains.
pub open spec fn inv(s: StoreV) -> bool {
    unique_recipe_ids(s.recipes) && unique_ingredient_ids(s.ingredients) && orphan_free(s)
}

/// Builds the definition rows and link rows for a bulk insert: one fresh id
/// per requested ingredient, links paired positionally with the definitions.
fn build_rows(ingredients: &Vec<InpIngredient>, ing_ids: &Vec<u128>, rec_id: u128) -> (r: (
    Vec<Ingredient>,
    Vec<RecipeIngredient>,
))
    requires
        ing_ids@.len() == ingredients@.len(),
    ensures
        r.0@.map_values(|g: Ingredient| g@) == new_ingredient_rows(
            triples_of(ingredients@),
            ing_ids@,
        ),
        r.1@.map_values(|l: RecipeIngredient| l@) == new_link_rows(
            triples_of(ingredients@),
            rec_id,
            ing_ids@,
        ),
{
    let ghost inps = triples_of(ingredients@);
    let mut ing_rows: Vec<Ingredient> = Vec::new();
    let mut link_rows: Vec<RecipeIngredient> = Vec::new();
    let mut i: usize = 0;
    while i < ingredients.len()
        invariant
            i <= ingredients@.len(),
            ing_ids@.len() == ingredients@.len(),
            inps == triples_of(ingredients@),
            ing_rows@.len() == i,
            link_rows@.len() == i,
            ing_rows@.map_values(|g: Ingredient| g@) == new_ingredient_rows(inps, ing_ids@).take(
                i as int,
            ),
            link_rows@.map_values(|l: RecipeIngredient| l@) == new_link_rows(
                inps,
                rec_id,
                ing_ids@,
            ).take(i as int),
        decreases ingredients@.len() - i,
    {
        let inp = &ingredients[i];
        ing_rows.push(Ingredient::new(ing_ids[i], inp.name.clone()));
        link_rows.push(RecipeIngredient::new(inp.amount, inp.unit.clone(), rec_id, ing_ids[i]));
        proof {
            assert(inps[i as int] == ingredients@[i as int]@);
            assert(ing_rows@.map_values(|g: Ingredient| g@) =~~= new_ingredient_rows(
                inps,
                ing_ids@,
            ).take(i + 1));
            assert(link_rows@.map_values(|l: RecipeIngredient| l@) =~~= new_link_rows(
                inps,
                rec_id,
                ing_ids@,
            ).take(i + 1));
        }
        i += 1;
    }
    proof {
        assert(new_ingredient_rows(inps, ing_ids@).take(inps.len() as int) =~= new_ingredient_rows(
            inps,
            ing_ids@,
        ));
        assert(new_link_rows(inps, rec_id, ing_ids@).take(inps.len() as int) =~= new_link_rows(
            inps,
            rec_id,
            ing_ids@,
        ));
    }
    (ing_rows, link_rows)
}

/// Creates a recipe aggregate: inserts the header row, then bulk-inserts one
/// definition row per requested ingredient under the given fresh ids, then
/// bulk-inserts the link rows pairing them positionally with the new recipe
/// id. Returns the created header.
pub fn create_recipe(
    store: &mut Store,
    name: String,
    ingredients: &Vec<InpIngredient>,
    rec_id: u128,
    ing_ids: &Vec<u128>,
    now: i64,
) -> (r: Recipe)
    requires
        ing_ids@.len() == ingredients@.len(),
    ensures
        r@ == (RecipeV { id: rec_id, rec_name: name@, inserted_at: now, updated_at: now }),
        final(store)@ == create_spec(
            old(store)@,
            name@,
            triples_of(ingredients@),
            rec_id,
            ing_ids@,
            now,
        ),
{
    let header = Recipe { id: rec_id, rec_name: name.clone(), inserted_at: now, updated_at: now };
    let recipe = Recipe::new(rec_id, name, now);
    store.recipes.insert(header);
    let (ing_rows, link_rows) = build_rows(ingredients, ing_ids, rec_id);
    store.ingredients.bulk_insert_ingredients(ing_rows);
    store.links.bulk_insert_links(link_rows);
    recipe
}

/// All recipe header rows, in store order.
pub fn read_recipes(store: &Store) -> (r: &Vec<Recipe>)
    ensures
        r@.map_values(|x: Recipe| x@) == store@.recipes,
{
    store.recipes.list_all()
}

/// Reads one recipe's ingredient triples: fetches its links, resolves each
/// definition row by id for the name, and zips amount and unit from the link.
/// `NotFound` exactly when some link references a missing definition row — a
/// data-integrity fault that cannot arise while the invariant holds.
pub fn get_ingredients(store: &Store, rec_id: u128) -> (r: Result<Vec<InpIngredient>, OpError>)
    ensures
        match r {
            Ok(v) => resolves(store@, rec_id) && v@.map_values(|x: InpIngredient| x@)
                == read_spec(store@, rec_id),
            Err(e) => e == OpError::NotFound && !resolves(store@, rec_id),
        },
{
    let links = store.links.links_by_recipe(rec_id);
    let ghost ls = links_of(store@.links, rec_id);
    let ghost want = read_spec(store@, rec_id);
    let mut out: Vec<InpIngredient> = Vec::new();
    let mut i: usize = 0;
    while i < links.len()
        invariant
            i <= links@.len(),
            links@.map_values(|l: RecipeIngredient| l@) == ls,
            ls == links_of(store@.links, rec_id),
            want == read_spec(store@, rec_id),
            out@.map_values(|x: InpIngredient| x@) == want.take(i as int),
            forall|j: int| 0 <= j < i ==> has_ingredient(store@.ingredients, ls[j].indid),
        decreases links@.len() - i,
    {
        let l = &links[i];
        proof {
            assert(links@[i as int]@ == ls[i as int]);
        }
        match store.ingredients.ingredient_by_id(l.indid) {
            Ok(g) => {
                out.push(
                    InpIngredient { name: g.name.clone(), amount: l.amount, unit: l.unit.clone() },
                );
                proof {
                    assert(want[i as int] == (TripleV {
                        name: ingredient_name_of(store@.ingredients, ls[i as int].indid),
                        amount: ls[i as int].amount,
                        unit: ls[i as int].unit,
                    }));
                    assert(out@.map_values(|x: InpIngredient| x@) =~= want.take(i as int).push(
                        want[i as int],
                    ));
                    assert(want.take(i as int).push(want[i as int]) =~= want.take(i + 1));
                }
            },
            Err(_) => {
                proof {
                    assert(!has_ingredient(store@.ingredients, ls[i as int].indid));
                }
                return Err(OpError::NotFound);
            },
        }
        i += 1;
    }
    proof {
        assert(want.take(want.len() as int) =~= want);
    }
    Ok(out)
}

/// The removal protocol shared by replace and delete: fetches the recipe's
/// links, then for each one deletes every link referencing its ingredient id
/// (by ingredient id alone, a global delete) and then that definition row —
/// sequential delete pairs, not one bulk statement.
pub fn remove_ingredients(store: &mut Store, rec_id: u128)
    ensures
        final(store)@ == remove_spec(old(store)@, rec_id),
{
    let links = store.links.links_by_recipe(rec_id);
    let ghost s0 = store@;
    let ghost rem = removed_ids(s0, rec_id);
    proof {
        lemma_filter_all_true(
            s0.ingredients,
            |g: IngredientV| !rem.take(0).contains(g.id),
        );
        lemma_filter_all_true(s0.links, |l: LinkV| !rem.take(0).contains(l.indid));
    }
    let mut i: usize = 0;
    while i < links.len()
        invariant
            i <= links@.len(),
            links@.map_values(|l: RecipeIngredient| l@) == links_of(s0.links, rec_id),
            rem == removed_ids(s0, rec_id),
            rem.len() == links@.len(),
            store@.recipes == s0.recipes,
            store@.ingredients == s0.ingredients.filter(
                |g: IngredientV| !rem.take(i as int).contains(g.id),
            ),
            store@.links == s0.links.filter(|l: LinkV| !rem.take(i as int).contains(l.indid)),
        decreases links@.len() - i,
    {
        let ing_id = links[i].indid;
        proof {
            assert(links@[i as int]@ == links_of(s0.links, rec_id)[i as int]);
            assert(rem[i as int] == ing_id);
        }
        store.links.delete_links_by_ingredient_id(ing_id);
        store.ingredients.delete_ingredient_by_id(ing_id);
        proof {
            let pre = rem.take(i as int);
            let nxt = rem.take(i + 1);
            let cur = rem[i as int];
            assert forall|x: u128| #[trigger] nxt.contains(x) == (pre.contains(x) || x == cur) by {
                assert(nxt =~= pre.push(rem[i as int]));
                if pre.contains(x) {
                    let j = choose|j: int| 0 <= j < pre.len() && pre[j] == x;
                    assert(nxt[j] == x);
                }
                if x == rem[i as int] {
                    assert(nxt[i as int] == x);
                }
                if nxt.contains(x) && !pre.contains(x) {
                    let j = choose|j: int| 0 <= j < nxt.len() && nxt[j] == x;
                    assert(j == i);
                }
            }
            let pl = |l: LinkV| !pre.contains(l.indid);
            let ql = |l: LinkV| l.indid != ing_id;
            lemma_filter_filter(s0.links, pl, ql);
            lemma_filter_equiv(
                s0.links,
                |l: LinkV| pl(l) && ql(l),
                |l: LinkV| !nxt.contains(l.indid),
            );
            let pg = |g: IngredientV| !pre.contains(g.id);
            let qg = |g: IngredientV| g.id != ing_id;
            lemma_filter_filter(s0.ingredients, pg, qg);
            lemma_filter_equiv(
                s0.ingredients,
                |g: IngredientV| pg(g) && qg(g),
                |g: IngredientV| !nxt.contains(g.id),
            );
        }
        i += 1;
    }
    proof {
        assert(rem.take(rem.len() as int) =~= rem);
        lemma_filter_equiv(
            s0.ingredients,
            |g: IngredientV| !rem.take(rem.len() as int).contains(g.id),
            |g: IngredientV| !removed_ids(s0, rec_id).contains(g.id),
        );
        lemma_filter_equiv(
            s0.links,
            |l: LinkV| !rem.take(rem.len() as int).contains(l.indid),
            |l: LinkV| !removed_ids(s0, rec_id).contains(l.indid),
        );
        assert(store@ =~= remove_spec(s0, rec_id));
    }
}

/// Replaces a recipe aggregate wholesale: updates the header fields (a no-op
/// for an unknown id), runs the removal protocol on the current ingredient
/// set, and bulk-inserts the new definitions and links against the same
/// recipe id. There is no diffing of old against new ingredient lists.
pub fn update(
    store: &mut Store,
    rec_id: u128,
    name: String,
    ingredients: &Vec<InpIngredient>,
    ing_ids: &Vec<u128>,
    now: i64,
)
    requires
        ing_ids@.len() == ingredients@.len(),
    ensures
        final(store)@ == replace_spec(
            old(store)@,
            rec_id,
            name@,
            triples_of(ingredients@),
            ing_ids@,
            now,
        ),
{
    let ghost s0 = store@;
    store.recipes.replace_fields(rec_id, &name, now);
    remove_ingredients(store, rec_id);
    let (ing_rows, link_rows) = build_rows(ingredients, ing_ids, rec_id);
    store.ingredients.bulk_insert_ingredients(ing_rows);
    store.links.bulk_insert_links(link_rows);
    proof {
        assert(store@ =~= replace_spec(
            s0,
            rec_id,
            name@,
            triples_of(ingredients@),
            ing_ids@,
            now,
        ));
    }
}

/// Deletes a recipe aggregate: the removal protocol, then the header row.
/// `Deleted` exactly when a header row carried the id, `NotFound` otherwise.
pub fn delete_recipe(store: &mut Store, rec_id: u128) -> (st: DeleteStatus)
    ensures
        final(store)@ == delete_spec(old(store)@, rec_id),
        st == DeleteStatus::Deleted <==> has_recipe(old(store)@.recipes, rec_id),
{
    let ghost s0 = store@;
    remove_ingredients(store, rec_id);
    let affected = store.recipes.delete_by_id(rec_id);
    proof {
        assert(store@ =~= delete_spec(s0, rec_id));
    }
    if affected == 0 {
        DeleteStatus::NotFound
    } else {
        DeleteStatus::Deleted
    }
}

/// The drawn ids are pairwise distinct and carried by no existing header or
/// definition row: the global uniqueness the identifier generator guarantees,
/// restated over the persisted state.
pub open spec fn ids_unused_everywhere(rs: Seq<RecipeV>, gs: Seq<IngredientV>, ids: Seq<u128>) -> bool {
    &&& forall|i: int|
        0 <= i < ids.len() ==> !has_ingredient(gs, #[trigger] ids[i]) && !has_recipe(rs, ids[i])
    &&& forall|i: int, j: int| 0 <= i < j < ids.len() ==> ids[i] != ids[j]
}

/// Global freshness of one recipe id together with its definition ids: no
/// drawn value is carried by any existing row of either table, and all drawn
/// values are pairwise distinct.
pub open spec fn globally_fresh_ids(s: StoreV, rec_id: u128, ids: Seq<u128>) -> bool {
    &&& !has_recipe(s.recipes, rec_id)
    &&& !has_ingredient(s.ingredients, rec_id)
    &&& ids_unused_everywhere(s.recipes, s.ingredients, ids)
    &&& forall|i: int| 0 <= i < ids.len() ==> ids[i] != rec_id
}

/// Checks that drawn ids are pairwise distinct and carried by no existing
/// header or definition row.
pub fn check_ids_unused(rs: &RecipeStore, gs: &IngredientStore, ids: &Vec<u128>) -> (b: bool)
    ensures
        b == ids_unused_everywhere(rs@, gs@, ids@),
{
    let mut i: usize = 0;
    while i < ids.len()
        invariant
            i <= ids@.len(),
            forall|k: int|
                0 <= k < i ==> !has_ingredient(gs@, #[trigger] ids@[k]) && !has_recipe(
                    rs@,
                    ids@[k],
                ),
            forall|k: int, j: int| 0 <= k < j < i ==> ids@[k] != ids@[j],
        decreases ids@.len() - i,
    {
        if gs.contains_id(ids[i]) || rs.contains_id(ids[i]) {
            return false;
        }
        let mut j: usize = 0;
        while j < i
            invariant
                j <= i,
                i < ids@.len(),
                forall|k: int| 0 <= k < j ==> ids@[k] != ids@[i as int],
            decreases i - j,
        {
            if ids[j] == ids[i] {
                return false;
            }
            j += 1;
        }
        i += 1;
    }
    true
}

/// Whether one of the drawn ids equals the given value.
fn ids_contain(ids: &Vec<u128>, id: u128) -> (b: bool)
    ensures
        b == ids@.contains(id),
{
    let mut i: usize = 0;
    while i < ids.len()
        invariant
            i <= ids@.len(),
            forall|k: int| 0 <= k < i ==> ids@[k] != id,
        decreases ids@.len() - i,
    {
        if ids[i] == id {
            return true;
        }
        i += 1;
    }
    false
}

/// The creation contract of the executable face of `Create`: some sequence
/// of globally fresh, pairwise distinct ids was drawn, and the state moved
/// exactly as a create with them.
pub open spec fn created_with_fresh_ids(
    pre: StoreV,
    post: StoreV,
    name: Seq<char>,
    inps: Seq<TripleV>,
    rec: RecipeV,
) -> bool {
    exists|ids: Seq<u128>|
        #![auto]
        ids.len() == inps.len() && globally_fresh_ids(pre, rec.id, ids) && post == create_spec(
            pre,
            name,
            inps,
            rec.id,
            ids,
            rec.inserted_at,
        )
}

/// The replacement contract of the executable face of `Replace`: some
/// globally fresh ids and some update time were drawn, and the state moved
/// exactly as a replace with them.
pub open spec fn replaced_with_fresh_ids(
    pre: StoreV,
    post: StoreV,
    rid: u128,
    name: Seq<char>,
    inps: Seq<TripleV>,
) -> bool {
    exists|ids: Seq<u128>, now: i64|
        #![auto]
        ids.len() == inps.len() && ids_unused_everywhere(pre.recipes, pre.ingredients, ids) && post
            == replace_spec(pre, rid, name, inps, ids, now)
}

/// Draws one fresh identifier per requested ingredient.
fn draw_ids(n: usize) -> (r: Vec<u128>)
    ensures
        r@.len() == n,
{
    let mut ids: Vec<u128> = Vec::new();
    let mut i: usize = 0;
    while i < n
        invariant
            ids@.len() == i,
            i <= n,
        decreases n - i,
    {
        ids.push(crate::idgen::fresh_id());
        i += 1;
    }
    ids
}

/// The executable face of `Create`: draws the recipe id, one definition id
/// per ingredient and the current time, then runs the create protocol.
/// `WriteError` comes only when a drawn identifier collides with an existing
/// row of either table or with another drawn one — the duplicate-key write
/// fault of a storage engine with globally unique ids — with the state left
/// unchanged; on a store with no rows and no requested ingredients nothing
/// can collide, so success is owed.
pub fn create_recipe_now(store: &mut Store, name: String, ingredients: &Vec<InpIngredient>) -> (r:
    Result<Recipe, OpError>)
    ensures
        match r {
            Ok(rec) => {
                &&& rec.rec_name@ == name@
                &&& rec.inserted_at == rec.updated_at
                &&& fresh_recipe_id(old(store)@, rec.id)
                &&& !has_ingredient(old(store)@.ingredients, rec.id)
                &&& created_with_fresh_ids(
                    old(store)@,
                    final(store)@,
                    name@,
                    triples_of(ingredients@),
                    rec@,
                )
            },
            Err(e) => {
                &&& e == OpError::WriteError
                &&& final(store)@ == old(store)@
                &&& !(old(store)@.recipes.len() == 0 && old(store)@.ingredients.len() == 0
                    && ingredients@.len() == 0)
            },
        },
{
    let rec_id = crate::idgen::fresh_id();
    if store.recipes.contains_id(rec_id) || store.ingredients.contains_id(rec_id) {
        return Err(OpError::WriteError);
    }
    let ing_ids = draw_ids(ingredients.len());
    if !check_ids_unused(&store.recipes, &store.ingredients, &ing_ids) {
        proof {
            if store@.recipes.len() == 0 && store@.ingredients.len() == 0 && ingredients@.len()
                == 0 {
                assert(ids_unused_everywhere(store@.recipes, store@.ingredients, ing_ids@));
            }
        }
        return Err(OpError::WriteError);
    }
    if ids_contain(&ing_ids, rec_id) {
        return Err(OpError::WriteError);
    }
    let now = crate::idgen::now_millis();
    let ghost pre = store@;
    proof {
        assert forall|i: int| 0 <= i < ing_ids@.len() implies ing_ids@[i] != rec_id by {
            if ing_ids@[i] == rec_id {
                assert(ing_ids@.contains(rec_id));
            }
        }
        assert(globally_fresh_ids(pre, rec_id, ing_ids@));
    }
    let rec = create_recipe(store, name, ingredients, rec_id, &ing_ids, now);
    proof {
        assert(ing_ids@.len() == triples_of(ingredients@).len() && globally_fresh_ids(
            pre,
            rec@.id,
            ing_ids@,
        ) && store@ == create_spec(
            pre,
            name@,
            triples_of(ingredients@),
            rec@.id,
            ing_ids@,
            rec@.inserted_at,
        ));
    }
    Ok(rec)
}

/// The executable face of `Replace`: draws one definition id per ingredient
/// and the current time, then runs the replace protocol against the given
/// recipe id. `WriteError` comes only when a drawn identifier collides with
/// an existing row of either table or with another drawn one — with the
/// state left unchanged; with no requested ingredients, or one against a
/// store with no rows, nothing can collide, so success is owed.
pub fn update_now(
    store: &mut Store,
    rec_id: u128,
    name: String,
    ingredients: &Vec<InpIngredient>,
) -> (r: Result<(), OpError>)
    ensures
        match r {
            Ok(_) => replaced_with_fresh_ids(
                old(store)@,
                final(store)@,
                rec_id,
                name@,
                triples_of(ingredients@),
            ),
            Err(e) => {
                &&& e == OpError::WriteError
                &&& final(store)@ == old(store)@
                &&& !(ingredients@.len() == 0 || (ingredients@.len() == 1
                    && old(store)@.recipes.len() == 0 && old(store)@.ingredients.len() == 0))
            },
        },
{
    let ing_ids = draw_ids(ingredients.len());
    if !check_ids_unused(&store.recipes, &store.ingredients, &ing_ids) {
        proof {
            if ingredients@.len() == 0 || (ingredients@.len() == 1 && store@.recipes.len() == 0
                && store@.ingredients.len() == 0) {
                assert(ids_unused_everywhere(store@.recipes, store@.ingredients, ing_ids@));
            }
        }
        return Err(OpError::WriteError);
    }
    let now = crate::idgen::now_millis();
    let ghost pre = store@;
    update(store, rec_id, name, ingredients, &ing_ids, now);
    proof {
        assert(ing_ids@.len() == triples_of(ingredients@).len() && ids_unused_everywhere(
            pre.recipes,
            pre.ingredients,
            ing_ids@,
        ) && store@ == replace_spec(pre, rec_id, name@, triples_of(ingredients@), ing_ids@, now));
    }
    Ok(())
}

} // verus!

