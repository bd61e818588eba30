//! The laws of the composition protocol, stated over the same state
//! transformers the executable contracts use and proved once for all states:
//! the create/read round-trip, replace idempotence, delete completeness, and
//! preservation of the orphan-free invariant by every operation.

use vstd::prelude::*;

use crate::model::{
    IngredientV, RecipeV, LinkV, TripleV, first_ingredient_index, has_ingredient, has_recipe,
    ingredient_name_of, lemma_filter_all_false, lemma_filter_all_true, lemma_filter_equiv,
    lemma_filter_filter, lemma_filter_single, lemma_filter_sub, lemma_find_in_append,
    lemma_first_index_props, link_count, links_of,
};
use crate::manager::{
    StoreV, create_spec, delete_spec, empty_store, fresh_ingredient_ids, fresh_recipe_id, inv,
    new_ingredient_rows, new_link_rows, orphan_free, read_spec, remove_spec, removed_ids,
    replace_spec, resolves, unique_ingredient_ids, unique_recipe_ids,
};
use crate::store::replace_fields_spec;

verus! {

broadcast use vstd::seq_lib::group_filter_ensures;

/// A state whose links all reference existing headers has no links for a
/// recipe id that no header carries.
proof fn lemma_no_links_for_fresh_recipe(s: StoreV, rid: u128)
    requires
        orphan_free(s),
        fresh_recipe_id(s, rid),
    ensures
        links_of(s.links, rid) == Seq::<LinkV>::empty(),
{
    assert forall|i: int| 0 <= i < s.links.len() implies !(s.links[i].recid == rid) by {
        assert(has_recipe(s.recipes, s.links[i].recid));
    }
    lemma_filter_all_false(s.links, |l: LinkV| l.recid == rid);
}

/// Deleting definition rows never invents an ingredient id.
proof fn lemma_fresh_survives_filter(
    gs: Seq<IngredientV>,
    p: spec_fn(IngredientV) -> bool,
    id: u128,
)
    requires
        !has_ingredient(gs, id),
    ensures
        !has_ingredient(gs.filter(p), id),
{
    if has_ingredient(gs.filter(p), id) {
        let i = choose|i: int| 0 <= i < gs.filter(p).len() && gs.filter(p)[i].id == id;
        lemma_filter_sub(gs, p, i);
        let j = choose|j: int| 0 <= j < gs.len() && gs[j] == gs.filter(p)[i];
        assert(gs[j].id == id);
    }
}

/// Ids fresh for a store stay fresh for any filtered-down store.
proof fn lemma_fresh_ids_survive_filter(
    gs: Seq<IngredientV>,
    p: spec_fn(IngredientV) -> bool,
    ids: Seq<u128>,
)
    requires
        fresh_ingredient_ids(gs, ids),
    ensures
        fresh_ingredient_ids(gs.filter(p), ids),
{
    assert forall|i: int| 0 <= i < ids.len() implies !has_ingredient(gs.filter(p), ids[i]) by {
        lemma_fresh_survives_filter(gs, p, ids[i]);
    }
}

/// In freshly built definition rows with pairwise distinct ids, the i-th id
/// resolves to exactly the i-th row.
proof fn lemma_new_rows_resolve(inps: Seq<TripleV>, ids: Seq<u128>, i: int)
    requires
        ids.len() == inps.len(),
        forall|a: int, b: int| 0 <= a < b < ids.len() ==> ids[a] != ids[b],
        0 <= i < inps.len(),
    ensures
        has_ingredient(new_ingredient_rows(inps, ids), ids[i]),
        first_ingredient_index(new_ingredient_rows(inps, ids), ids[i]) == i,
        ingredient_name_of(new_ingredient_rows(inps, ids), ids[i]) == inps[i].name,
{
    let rows = new_ingredient_rows(inps, ids);
    assert(rows[i].id == ids[i]);
    assert(has_ingredient(rows, ids[i]));
    lemma_first_index_props(rows, ids[i]);
    let f = first_ingredient_index(rows, ids[i]);
    assert(rows[f].id == ids[f]);
    if f < i {
        assert(ids[f] != ids[i]);
    }
    if i < f {
        assert(rows[i].id != ids[i]);
    }
}

/// Reading a recipe whose links are exactly freshly inserted rows — against
/// any prior rows that neither mention the recipe nor the fresh ids —
/// returns exactly the inserted triples, each of them resolving.
proof fn lemma_read_fresh_rows(
    s2: StoreV,
    base_links: Seq<LinkV>,
    base_ings: Seq<IngredientV>,
    inps: Seq<TripleV>,
    rid: u128,
    ids: Seq<u128>,
)
    requires
        s2.links == base_links + new_link_rows(inps, rid, ids),
        s2.ingredients == base_ings + new_ingredient_rows(inps, ids),
        links_of(base_links, rid) == Seq::<LinkV>::empty(),
        fresh_ingredient_ids(base_ings, ids),
        ids.len() == inps.len(),
    ensures
        read_spec(s2, rid) == inps,
        resolves(s2, rid),
{
    let nl = new_link_rows(inps, rid, ids);
    let ni = new_ingredient_rows(inps, ids);
    Seq::filter_distributes_over_add(base_links, nl, |l: LinkV| l.recid == rid);
    assert forall|i: int| 0 <= i < nl.len() implies (|l: LinkV| l.recid == rid)(nl[i]) by {}
    lemma_filter_all_true(nl, |l: LinkV| l.recid == rid);
    assert(links_of(s2.links, rid) =~= nl);
    assert forall|i: int| 0 <= i < nl.len() implies has_ingredient(s2.ingredients, nl[i].indid)
        && ingredient_name_of(s2.ingredients, nl[i].indid) == inps[i].name by {
        lemma_new_rows_resolve(inps, ids, i);
        lemma_find_in_append(base_ings, ni, ids[i]);
        assert(nl[i].indid == ids[i]);
    }
    assert(read_spec(s2, rid) =~~= inps);
}

/// The removal protocol leaves no link at all for the recipe it ran on.
proof fn lemma_no_rid_links_after_remove(t: StoreV, rid: u128)
    ensures
        links_of(remove_spec(t, rid).links, rid) == Seq::<LinkV>::empty(),
{
    let rem = removed_ids(t, rid);
    let pl = |l: LinkV| !rem.contains(l.indid);
    let kept = t.links.filter(pl);
    assert(remove_spec(t, rid).links == kept);
    assert forall|i: int| 0 <= i < kept.len() implies !(kept[i].recid == rid) by {
        lemma_filter_sub(t.links, pl, i);
        let j = choose|j: int| 0 <= j < t.links.len() && t.links[j] == kept[i];
        if kept[i].recid == rid {
            assert(links_of(t.links, rid).contains(t.links[j]));
            let k = choose|k: int|
                0 <= k < links_of(t.links, rid).len() && links_of(t.links, rid)[k] == t.links[j];
            assert(rem[k] == t.links[j].indid);
            assert(rem.contains(kept[i].indid));
        }
    }
    lemma_filter_all_false(kept, |l: LinkV| l.recid == rid);
}

/// Round-trip law: reading a freshly created recipe returns exactly the
/// requested triples — in particular, the same multiset of triples.
pub proof fn lemma_create_read_round_trip(
    s: StoreV,
    name: Seq<char>,
    inps: Seq<TripleV>,
    rid: u128,
    ids: Seq<u128>,
    now: i64,
)
    requires
        inv(s),
        fresh_recipe_id(s, rid),
        fresh_ingredient_ids(s.ingredients, ids),
        ids.len() == inps.len(),
    ensures
        read_spec(create_spec(s, name, inps, rid, ids, now), rid) == inps,
        read_spec(create_spec(s, name, inps, rid, ids, now), rid).to_multiset()
            == inps.to_multiset(),
        resolves(create_spec(s, name, inps, rid, ids, now), rid),
{
    lemma_no_links_for_fresh_recipe(s, rid);
    lemma_read_fresh_rows(
        create_spec(s, name, inps, rid, ids, now),
        s.links,
        s.ingredients,
        inps,
        rid,
        ids,
    );
}

/// Reading right after a replace returns exactly the new triples, whatever
/// the prior state held for that recipe.
pub proof fn lemma_read_after_replace(
    s: StoreV,
    rid: u128,
    name: Seq<char>,
    inps: Seq<TripleV>,
    ids: Seq<u128>,
    now: i64,
)
    requires
        fresh_ingredient_ids(s.ingredients, ids),
        ids.len() == inps.len(),
    ensures
        read_spec(replace_spec(s, rid, name, inps, ids, now), rid) == inps,
        resolves(replace_spec(s, rid, name, inps, ids, now), rid),
{
    let headered = StoreV {
        recipes: replace_fields_spec(s.recipes, rid, name, now),
        ingredients: s.ingredients,
        links: s.links,
    };
    let cleared = remove_spec(headered, rid);
    lemma_no_rid_links_after_remove(headered, rid);
    lemma_fresh_ids_survive_filter(
        s.ingredients,
        |g: IngredientV| !removed_ids(headered, rid).contains(g.id),
        ids,
    );
    lemma_read_fresh_rows(
        replace_spec(s, rid, name, inps, ids, now),
        cleared.links,
        cleared.ingredients,
        inps,
        rid,
        ids,
    );
}

/// Replace idempotence: replacing twice in sequence with the same triples
/// yields the same read both times, though the underlying ingredient ids
/// differ between the two calls.
pub proof fn lemma_replace_idempotent(
    s: StoreV,
    rid: u128,
    name: Seq<char>,
    inps: Seq<TripleV>,
    ids1: Seq<u128>,
    ids2: Seq<u128>,
    now1: i64,
    now2: i64,
)
    requires
        fresh_ingredient_ids(s.ingredients, ids1),
        ids1.len() == inps.len(),
        fresh_ingredient_ids(replace_spec(s, rid, name, inps, ids1, now1).ingredients, ids2),
        ids2.len() == inps.len(),
    ensures
        read_spec(
            replace_spec(replace_spec(s, rid, name, inps, ids1, now1), rid, name, inps, ids2, now2),
            rid,
        ) == read_spec(replace_spec(s, rid, name, inps, ids1, now1), rid),
{
    lemma_read_after_replace(s, rid, name, inps, ids1, now1);
    lemma_read_after_replace(
        replace_spec(s, rid, name, inps, ids1, now1),
        rid,
        name,
        inps,
        ids2,
        now2,
    );
}

/// Delete completeness: after a delete, reading the recipe yields the empty
/// sequence, and no definition row referenced by its old links remains.
pub proof fn lemma_delete_completeness(s: StoreV, rid: u128)
    ensures
        read_spec(delete_spec(s, rid), rid) == Seq::<TripleV>::empty(),
        forall|id: u128|
            removed_ids(s, rid).contains(id) ==> !has_ingredient(
                delete_spec(s, rid).ingredients,
                id,
            ),
{
    let rem = removed_ids(s, rid);
    lemma_no_rid_links_after_remove(s, rid);
    assert(delete_spec(s, rid).links == remove_spec(s, rid).links);
    assert(read_spec(delete_spec(s, rid), rid) =~= Seq::<TripleV>::empty());
    assert forall|id: u128| rem.contains(id) implies !has_ingredient(
        delete_spec(s, rid).ingredients,
        id,
    ) by {
        let pg = |g: IngredientV| !rem.contains(g.id);
        if has_ingredient(s.ingredients.filter(pg), id) {
            let i = choose|i: int|
                0 <= i < s.ingredients.filter(pg).len() && s.ingredients.filter(pg)[i].id == id;
            assert(pg(s.ingredients.filter(pg)[i]));
        }
    }
}

/// Link counts split over a concatenation of link rows.
proof fn lemma_link_count_add(a: Seq<LinkV>, b: Seq<LinkV>, id: u128)
    ensures
        link_count(a + b, id) == link_count(a, id) + link_count(b, id),
{
    Seq::filter_distributes_over_add(a, b, |l: LinkV| l.indid == id);
}

/// Filtering keeps definition-row ids pairwise distinct.
proof fn lemma_filter_keeps_unique_ingredients(
    gs: Seq<IngredientV>,
    p: spec_fn(IngredientV) -> bool,
)
    requires
        unique_ingredient_ids(gs),
    ensures
        unique_ingredient_ids(gs.filter(p)),
    decreases gs.len(),
{
    reveal(Seq::filter);
    if gs.len() > 0 {
        let dl = gs.drop_last();
        assert(unique_ingredient_ids(dl)) by {
            assert(forall|i: int| 0 <= i < dl.len() ==> dl[i] == gs[i]);
        }
        lemma_filter_keeps_unique_ingredients(dl, p);
        if p(gs.last()) {
            assert forall|i: int| 0 <= i < dl.filter(p).len() implies dl.filter(p)[i].id
                != gs.last().id by {
                lemma_filter_sub(dl, p, i);
                let j = choose|j: int| 0 <= j < dl.len() && dl[j] == dl.filter(p)[i];
                assert(gs[j] == dl[j]);
                assert(gs[j].id != gs[gs.len() - 1].id);
            }
        }
    }
}

/// Filtering keeps header-row ids pairwise distinct.
proof fn lemma_filter_keeps_unique_recipes(rs: Seq<RecipeV>, p: spec_fn(RecipeV) -> bool)
    requires
        unique_recipe_ids(rs),
    ensures
        unique_recipe_ids(rs.filter(p)),
    decreases rs.len(),
{
    reveal(Seq::filter);
    if rs.len() > 0 {
        let dl = rs.drop_last();
        assert(unique_recipe_ids(dl)) by {
            assert(forall|i: int| 0 <= i < dl.len() ==> dl[i] == rs[i]);
        }
        lemma_filter_keeps_unique_recipes(dl, p);
        if p(rs.last()) {
            assert forall|i: int| 0 <= i < dl.filter(p).len() implies dl.filter(p)[i].id
                != rs.last().id by {
                lemma_filter_sub(dl, p, i);
                let j = choose|j: int| 0 <= j < dl.len() && dl[j] == dl.filter(p)[i];
                assert(rs[j] == dl[j]);
                assert(rs[j].id != rs[rs.len() - 1].id);
            }
        }
    }
}

/// Pushing a header row with an unused id preserves the invariant.
proof fn lemma_push_recipe_preserves_inv(s: StoreV, rid: u128, name: Seq<char>, now: i64)
    requires
        inv(s),
        fresh_recipe_id(s, rid),
    ensures
        inv(
            StoreV {
                recipes: s.recipes.push(
                    RecipeV { id: rid, rec_name: name, inserted_at: now, updated_at: now },
                ),
                ingredients: s.ingredients,
                links: s.links,
            },
        ),
{
    let post = StoreV {
        recipes: s.recipes.push(
            RecipeV { id: rid, rec_name: name, inserted_at: now, updated_at: now },
        ),
        ingredients: s.ingredients,
        links: s.links,
    };
    assert forall|i: int, j: int|
        0 <= i < j < post.recipes.len() implies post.recipes[i].id != post.recipes[j].id by {
        if j == s.recipes.len() {
            if s.recipes[i].id == rid {
                assert(has_recipe(s.recipes, rid));
            }
        }
    }
    assert forall|i: int| 0 <= i < post.links.len() implies has_recipe(
        post.recipes,
        #[trigger] post.links[i].recid,
    ) && has_ingredient(post.ingredients, post.links[i].indid) by {
        assert(has_recipe(s.recipes, s.links[i].recid));
        let k = choose|k: int| 0 <= k < s.recipes.len() && s.recipes[k].id == s.links[i].recid;
        assert(post.recipes[k].id == s.links[i].recid);
    }
}

/// Bulk-inserting fresh definition rows and their links against an existing
/// header preserves the invariant.
proof fn lemma_insert_rows_preserves_inv(s: StoreV, rid: u128, inps: Seq<TripleV>, ids: Seq<u128>)
    requires
        inv(s),
        has_recipe(s.recipes, rid),
        fresh_ingredient_ids(s.ingredients, ids),
        ids.len() == inps.len(),
    ensures
        inv(
            StoreV {
                recipes: s.recipes,
                ingredients: s.ingredients + new_ingredient_rows(inps, ids),
                links: s.links + new_link_rows(inps, rid, ids),
            },
        ),
{
    let ni = new_ingredient_rows(inps, ids);
    let nl = new_link_rows(inps, rid, ids);
    let post = StoreV { recipes: s.recipes, ingredients: s.ingredients + ni, links: s.links + nl };
    let gl = s.ingredients.len() as int;
    let ll = s.links.len() as int;
    assert forall|i: int, j: int|
        0 <= i < j < post.ingredients.len() implies post.ingredients[i].id
        != post.ingredients[j].id by {
        if i < gl && gl <= j {
            if post.ingredients[i].id == ids[j - gl] {
                assert(has_ingredient(s.ingredients, ids[j - gl]));
            }
        }
    }
    assert forall|i: int| 0 <= i < post.links.len() implies has_recipe(
        post.recipes,
        #[trigger] post.links[i].recid,
    ) && has_ingredient(post.ingredients, post.links[i].indid) by {
        if i < ll {
            assert(has_recipe(s.recipes, s.links[i].recid));
            let k = choose|k: int|
                0 <= k < s.ingredients.len() && s.ingredients[k].id == s.links[i].indid;
            assert(post.ingredients[k].id == s.links[i].indid);
        } else {
            let t = i - ll;
            assert(post.links[i] == nl[t]);
            assert(nl[t].recid == rid && nl[t].indid == ids[t]);
            assert(post.ingredients[gl + t].id == ids[t]);
        }
    }
    assert forall|i: int| 0 <= i < post.ingredients.len() implies link_count(
        post.links,
        #[trigger] post.ingredients[i].id,
    ) == 1 by {
        lemma_link_count_add(s.links, nl, post.ingredients[i].id);
        if i < gl {
            let id = s.ingredients[i].id;
            assert(post.ingredients[i].id == id);
            assert(link_count(s.links, id) == 1);
            assert forall|k: int| 0 <= k < nl.len() implies !(nl[k].indid == id) by {
                if ids[k] == id {
                    assert(has_ingredient(s.ingredients, ids[k]));
                }
            }
            lemma_filter_all_false(nl, |l: LinkV| l.indid == id);
        } else {
            let t = i - gl;
            let id = ids[t];
            assert(post.ingredients[i].id == id);
            assert forall|k: int| 0 <= k < s.links.len() implies !(s.links[k].indid == id) by {
                assert(has_recipe(s.recipes, s.links[k].recid));
                if s.links[k].indid == id {
                    assert(has_ingredient(s.ingredients, id));
                }
            }
            lemma_filter_all_false(s.links, |l: LinkV| l.indid == id);
            assert forall|k: int| 0 <= k < nl.len() && k != t implies !(nl[k].indid == id) by {}
            lemma_filter_single(nl, |l: LinkV| l.indid == id, t);
        }
    }
}

/// The removal protocol preserves the invariant: links and their definition
/// rows leave together, in matched pairs.
proof fn lemma_remove_preserves_inv(s: StoreV, rid: u128)
    requires
        inv(s),
    ensures
        inv(remove_spec(s, rid)),
{
    let rem = removed_ids(s, rid);
    let pg = |g: IngredientV| !rem.contains(g.id);
    let pl = |l: LinkV| !rem.contains(l.indid);
    let post = remove_spec(s, rid);
    assert(post.ingredients == s.ingredients.filter(pg));
    assert(post.links == s.links.filter(pl));
    lemma_filter_keeps_unique_ingredients(s.ingredients, pg);
    assert forall|i: int| 0 <= i < post.links.len() implies has_recipe(
        post.recipes,
        #[trigger] post.links[i].recid,
    ) && has_ingredient(post.ingredients, post.links[i].indid) by {
        let l = post.links[i];
        lemma_filter_sub(s.links, pl, i);
        let j = choose|j: int| 0 <= j < s.links.len() && s.links[j] == l;
        assert(has_recipe(s.recipes, s.links[j].recid));
        let k = choose|k: int| 0 <= k < s.ingredients.len() && s.ingredients[k].id == l.indid;
        assert(pl(l));
        assert(pg(s.ingredients[k]));
        assert(s.ingredients.filter(pg).contains(s.ingredients[k]));
        let m = choose|m: int|
            0 <= m < post.ingredients.len() && post.ingredients[m] == s.ingredients[k];
        assert(post.ingredients[m].id == l.indid);
    }
    assert forall|i: int| 0 <= i < post.ingredients.len() implies link_count(
        post.links,
        #[trigger] post.ingredients[i].id,
    ) == 1 by {
        let g = post.ingredients[i];
        lemma_filter_sub(s.ingredients, pg, i);
        let j = choose|j: int| 0 <= j < s.ingredients.len() && s.ingredients[j] == g;
        assert(link_count(s.links, s.ingredients[j].id) == 1);
        let pid = |l: LinkV| l.indid == g.id;
        lemma_filter_filter(s.links, pl, pid);
        assert(pg(g));
        assert forall|x: int| 0 <= x < s.links.len() implies ((|l: LinkV| pl(l) && pid(l))(
            s.links[x],
        ) == pid(s.links[x])) by {
            if pid(s.links[x]) {
                assert(s.links[x].indid == g.id);
                assert(pl(s.links[x]));
            }
        }
        lemma_filter_equiv(s.links, |l: LinkV| pl(l) && pid(l), pid);
    }
}

/// Replacing header fields neither changes the set of header ids nor any
/// link or definition row.
proof fn lemma_replace_fields_preserves_inv(s: StoreV, rid: u128, name: Seq<char>, at: i64)
    requires
        inv(s),
    ensures
        inv(
            StoreV {
                recipes: replace_fields_spec(s.recipes, rid, name, at),
                ingredients: s.ingredients,
                links: s.links,
            },
        ),
        has_recipe(replace_fields_spec(s.recipes, rid, name, at), rid) == has_recipe(
            s.recipes,
            rid,
        ),
{
    let rs = replace_fields_spec(s.recipes, rid, name, at);
    assert(rs.len() == s.recipes.len());
    assert(forall|i: int| 0 <= i < rs.len() ==> #[trigger] rs[i].id == s.recipes[i].id);
    assert forall|i: int| 0 <= i < s.links.len() implies has_recipe(
        rs,
        #[trigger] s.links[i].recid,
    ) by {
        assert(has_recipe(s.recipes, s.links[i].recid));
        let k = choose|k: int| 0 <= k < s.recipes.len() && s.recipes[k].id == s.links[i].recid;
        assert(rs[k].id == s.links[i].recid);
    }
    if has_recipe(s.recipes, rid) {
        let k = choose|k: int| 0 <= k < s.recipes.len() && s.recipes[k].id == rid;
        assert(rs[k].id == rid);
    }
    if has_recipe(rs, rid) {
        let k = choose|k: int| 0 <= k < rs.len() && rs[k].id == rid;
        assert(s.recipes[k].id == rid);
    }
}

/// The empty store satisfies the invariant.
pub proof fn lemma_empty_store_inv()
    ensures
        inv(empty_store()),
{
}

/// Creating a recipe with an unused header id and fresh, pairwise distinct
/// ingredient ids preserves the orphan-free invariant.
pub proof fn lemma_create_preserves_inv(
    s: StoreV,
    name: Seq<char>,
    inps: Seq<TripleV>,
    rid: u128,
    ids: Seq<u128>,
    now: i64,
)
    requires
        inv(s),
        fresh_recipe_id(s, rid),
        fresh_ingredient_ids(s.ingredients, ids),
        ids.len() == inps.len(),
    ensures
        inv(create_spec(s, name, inps, rid, ids, now)),
{
    lemma_push_recipe_preserves_inv(s, rid, name, now);
    let pushed = StoreV {
        recipes: s.recipes.push(
            RecipeV { id: rid, rec_name: name, inserted_at: now, updated_at: now },
        ),
        ingredients: s.ingredients,
        links: s.links,
    };
    assert(pushed.recipes[s.recipes.len() as int].id == rid);
    assert(has_recipe(pushed.recipes, rid));
    lemma_insert_rows_preserves_inv(pushed, rid, inps, ids);
    assert(create_spec(s, name, inps, rid, ids, now) == StoreV {
        recipes: pushed.recipes,
        ingredients: pushed.ingredients + new_ingredient_rows(inps, ids),
        links: pushed.links + new_link_rows(inps, rid, ids),
    });
}

/// Replacing an existing recipe with fresh, pairwise distinct ingredient ids
/// preserves the orphan-free invariant. A replace against an id no header
/// carries is excluded: it would insert links referencing a missing header.
pub proof fn lemma_replace_preserves_inv(
    s: StoreV,
    rid: u128,
    name: Seq<char>,
    inps: Seq<TripleV>,
    ids: Seq<u128>,
    now: i64,
)
    requires
        inv(s),
        has_recipe(s.recipes, rid),
        fresh_ingredient_ids(s.ingredients, ids),
        ids.len() == inps.len(),
    ensures
        inv(replace_spec(s, rid, name, inps, ids, now)),
{
    let headered = StoreV {
        recipes: replace_fields_spec(s.recipes, rid, name, now),
        ingredients: s.ingredients,
        links: s.links,
    };
    lemma_replace_fields_preserves_inv(s, rid, name, now);
    lemma_remove_preserves_inv(headered, rid);
    let cleared = remove_spec(headered, rid);
    assert(cleared.recipes == headered.recipes);
    lemma_fresh_ids_survive_filter(
        s.ingredients,
        |g: IngredientV| !removed_ids(headered, rid).contains(g.id),
        ids,
    );
    lemma_insert_rows_preserves_inv(cleared, rid, inps, ids);
    assert(replace_spec(s, rid, name, inps, ids, now) == StoreV {
        recipes: cleared.recipes,
        ingredients: cleared.ingredients + new_ingredient_rows(inps, ids),
        links: cleared.links + new_link_rows(inps, rid, ids),
    });
}

/// Deleting a recipe preserves the orphan-free invariant, whether or not the
/// header existed.
pub proof fn lemma_delete_preserves_inv(s: StoreV, rid: u128)
    requires
        inv(s),
    ensures
        inv(delete_spec(s, rid)),
{
    lemma_remove_preserves_inv(s, rid);
    let mid = remove_spec(s, rid);
    lemma_no_rid_links_after_remove(s, rid);
    let pr = |r: RecipeV| r.id != rid;
    let post = delete_spec(s, rid);
    assert(post.recipes == mid.recipes.filter(pr));
    assert(post.links == mid.links && post.ingredients == mid.ingredients);
    lemma_filter_keeps_unique_recipes(mid.recipes, pr);
    assert forall|i: int| 0 <= i < post.links.len() implies has_recipe(
        post.recipes,
        #[trigger] post.links[i].recid,
    ) by {
        let l = post.links[i];
        if l.recid == rid {
            assert(links_of(mid.links, rid).contains(mid.links[i]));
        }
        assert(has_recipe(mid.recipes, l.recid));
        let k = choose|k: int| 0 <= k < mid.recipes.len() && mid.recipes[k].id == l.recid;
        assert(pr(mid.recipes[k]));
        assert(mid.recipes.filter(pr).contains(mid.recipes[k]));
        let m = choose|m: int| 0 <= m < post.recipes.len() && post.recipes[m] == mid.recipes[k];
        assert(post.recipes[m].id == l.recid);
    }
    assert(unique_recipe_ids(post.recipes));
    assert(unique_ingredient_ids(post.ingredients));
    assert forall|i: int| 0 <= i < post.ingredients.len() implies link_count(
        post.links,
        #[trigger] post.ingredients[i].id,
    ) == 1 by {
        assert(link_count(mid.links, mid.ingredients[i].id) == 1);
    }
    assert forall|i: int| 0 <= i < post.links.len() implies has_ingredient(
        post.ingredients,
        post.links[i].indid,
    ) by {
        assert(has_recipe(mid.recipes, #[trigger] mid.links[i].recid));
    }
}

} // verus!
