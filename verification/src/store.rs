//! The three persisted collections, modelled as in-memory row stores: recipe
//! headers, ingredient definitions, and the links that join them. Each store
//! is the sole writer of its own rows; rows are only inserted or deleted in
//! place (headers additionally take a whole-row field replacement).

use vstd::prelude::*;

use crate::model::{
    Ingredient, IngredientV, OpError, Recipe, RecipeIngredient, RecipeV, LinkV, has_ingredient,
    has_recipe, first_ingredient_index, lemma_filter_push, lemma_first_index_props, links_of,
};

verus! {

/// The header rows after replacing name and update time of every row that
/// carries the given id (a no-op where none does).
pub open spec fn replace_fields_spec(rs: Seq<RecipeV>, id: u128, name: Seq<char>, at: i64) -> Seq<
    RecipeV,
> {
    rs.map_values(
        |r: RecipeV|
            if r.id == id {
                RecipeV { id: r.id, rec_name: name, inserted_at: r.inserted_at, updated_at: at }
            } else {
                r
            },
    )
}

/// Persists recipe header rows.
pub struct RecipeStore {
    rows: Vec<Recipe>,
}

impl View for RecipeStore {
    type V = Seq<RecipeV>;

    closed spec fn view(&self) -> Seq<RecipeV> {
        self.rows@.map_values(|r: Recipe| r@)
    }
}

impl RecipeStore {
    pub fn new() -> (s: RecipeStore)
        ensures
            s@ == Seq::<RecipeV>::empty(),
    {
        let s = RecipeStore { rows: Vec::new() };
        proof {
            assert(s@ =~= Seq::<RecipeV>::empty());
        }
        s
    }

    /// Appends one header row.
    pub fn insert(&mut self, r: Recipe)
        ensures
            final(self)@ == old(self)@.push(r@),
    {
        let ghost vs = self@;
        self.rows.push(r);
        proof {
            assert(self@ =~= vs.push(r@));
        }
    }

    /// All header rows, in store order.
    pub fn list_all(&self) -> (r: &Vec<Recipe>)
        ensures
            r@.map_values(|x: Recipe| x@) == self@,
    {
        &self.rows
    }

    /// Whether a header row with this id exists.
    pub fn contains_id(&self, id: u128) -> (b: bool)
        ensures
            b == has_recipe(self@, id),
    {
        let ghost vs = self@;
        let mut i: usize = 0;
        while i < self.rows.len()
            invariant
                i <= self.rows@.len(),
                vs == self@,
                vs.len() == self.rows@.len(),
                forall|j: int| 0 <= j < i ==> vs[j].id != id,
            decreases self.rows@.len() - i,
        {
            if self.rows[i].id == id {
                proof {
                    assert(vs[i as int].id == id);
                }
                return true;
            }
            i += 1;
        }
        false
    }

    /// Sets name and update time of the row matching the id; reports how many
    /// rows were affected (zero where the id is unknown, which this store does
    /// not surface as an error).
    pub fn replace_fields(&mut self, id: u128, name: &String, updated_at: i64) -> (affected:
        usize)
        ensures
            final(self)@ == replace_fields_spec(old(self)@, id, name@, updated_at),
            (affected == 0) <==> !has_recipe(old(self)@, id),
    {
        let ghost vs = self@;
        let ghost post = replace_fields_spec(vs, id, name@, updated_at);
        let mut kept: Vec<Recipe> = Vec::new();
        let mut affected: usize = 0;
        let mut i: usize = 0;
        while i < self.rows.len()
            invariant
                i <= self.rows@.len(),
                affected <= i,
                vs == self@,
                vs.len() == self.rows@.len(),
                post == replace_fields_spec(vs, id, name@, updated_at),
                kept@.map_values(|x: Recipe| x@) == post.take(i as int),
                (affected == 0) <==> (forall|j: int| 0 <= j < i ==> vs[j].id != id),
            decreases self.rows@.len() - i,
        {
            let r = &self.rows[i];
            proof {
                assert(vs[i as int] == self.rows@[i as int]@);
                assert(post.take(i as int).push(post[i as int]) =~= post.take(i + 1));
            }
            if r.id == id {
                kept.push(
                    Recipe {
                        id: r.id,
                        rec_name: name.clone(),
                        inserted_at: r.inserted_at,
                        updated_at,
                    },
                );
                affected = affected + 1;
            } else {
                kept.push(
                    Recipe {
                        id: r.id,
                        rec_name: r.rec_name.clone(),
                        inserted_at: r.inserted_at,
                        updated_at: r.updated_at,
                    },
                );
            }
            proof {
                assert(kept@.map_values(|x: Recipe| x@) =~= post.take(i as int).push(
                    post[i as int],
                ));
            }
            i += 1;
        }
        proof {
            assert(post.take(vs.len() as int) =~= post);
        }
        self.rows = kept;
        affected
    }

    /// Deletes the row matching the id; reports how many rows were affected,
    /// which distinguishes "not found" (zero) from "deleted".
    pub fn delete_by_id(&mut self, id: u128) -> (affected: usize)
        ensures
            final(self)@ == old(self)@.filter(|r: RecipeV| r.id != id),
            (affected == 0) <==> !has_recipe(old(self)@, id),
    {
        let ghost vs = self@;
        let ghost pred = |r: RecipeV| r.id != id;
        let mut kept: Vec<Recipe> = Vec::new();
        let mut affected: usize = 0;
        let mut i: usize = 0;
        while i < self.rows.len()
            invariant
                i <= self.rows@.len(),
                affected <= i,
                vs == self@,
                vs.len() == self.rows@.len(),
                pred == (|r: RecipeV| r.id != id),
                kept@.map_values(|x: Recipe| x@) == vs.take(i as int).filter(pred),
                (affected == 0) <==> (forall|j: int| 0 <= j < i ==> vs[j].id != id),
            decreases self.rows@.len() - i,
        {
            proof {
                assert(vs.take(i as int).push(vs[i as int]) =~= vs.take(i + 1));
                lemma_filter_push(vs.take(i as int), vs[i as int], pred);
            }
            let r = &self.rows[i];
            if r.id == id {
                affected = affected + 1;
            } else {
                kept.push(
                    Recipe {
                        id: r.id,
                        rec_name: r.rec_name.clone(),
                        inserted_at: r.inserted_at,
                        updated_at: r.updated_at,
                    },
                );
                proof {
                    assert(kept@.map_values(|x: Recipe| x@) =~= vs.take(i as int).filter(
                        pred,
                    ).push(vs[i as int]));
                }
            }
            i += 1;
        }
        proof {
            assert(vs.take(vs.len() as int) =~= vs);
        }
        self.rows = kept;
        affected
    }
}

/// Persists ingredient definition rows.
pub struct IngredientStore {
    rows: Vec<Ingredient>,
}

impl View for IngredientStore {
    type V = Seq<IngredientV>;

    closed spec fn view(&self) -> Seq<IngredientV> {
        self.rows@.map_values(|g: Ingredient| g@)
    }
}

impl IngredientStore {
    pub fn new() -> (s: IngredientStore)
        ensures
            s@ == Seq::<IngredientV>::empty(),
    {
        let s = IngredientStore { rows: Vec::new() };
        proof {
            assert(s@ =~= Seq::<IngredientV>::empty());
        }
        s
    }

    /// Single set-based insert of many definition rows.
    pub fn bulk_insert_ingredients(&mut self, mut rows: Vec<Ingredient>)
        ensures
            final(self)@ == old(self)@ + rows@.map_values(|g: Ingredient| g@),
    {
        let ghost vs = self@;
        let ghost added = rows@.map_values(|g: Ingredient| g@);
        self.rows.append(&mut rows);
        proof {
            assert(self@ =~= vs + added);
        }
    }

    /// Whether a definition row with this id exists.
    pub fn contains_id(&self, id: u128) -> (b: bool)
        ensures
            b == has_ingredient(self@, id),
    {
        let ghost vs = self@;
        let mut i: usize = 0;
        while i < self.rows.len()
            invariant
                i <= self.rows@.len(),
                vs == self@,
                vs.len() == self.rows@.len(),
                forall|j: int| 0 <= j < i ==> vs[j].id != id,
            decreases self.rows@.len() - i,
        {
            if self.rows[i].id == id {
                proof {
                    assert(vs[i as int].id == id);
                }
                return true;
            }
            i += 1;
        }
        false
    }

    /// The first definition row carrying the id, or `NotFound` where no row
    /// does — a data-integrity fault when a link still references the id.
    pub fn ingredient_by_id(&self, id: u128) -> (r: Result<&Ingredient, OpError>)
        ensures
            match r {
                Ok(g) => has_ingredient(self@, id) && g@ == self@[first_ingredient_index(
                    self@,
                    id,
                )],
                Err(e) => e == OpError::NotFound && !has_ingredient(self@, id),
            },
    {
        let ghost vs = self@;
        let mut i: usize = 0;
        while i < self.rows.len()
            invariant
                i <= self.rows@.len(),
                vs == self@,
                vs.len() == self.rows@.len(),
                forall|j: int| 0 <= j < i ==> vs[j].id != id,
            decreases self.rows@.len() - i,
        {
            if self.rows[i].id == id {
                proof {
                    assert(vs[i as int].id == id);
                    lemma_first_index_props(vs, id);
                    let f = first_ingredient_index(vs, id);
                    assert(f == i) by {
                        if f < i {
                            assert(vs[f].id != id);
                        }
                    }
                }
                return Ok(&self.rows[i]);
            }
            i += 1;
        }
        Err(OpError::NotFound)
    }

    /// Deletes the definition row carrying the id; a silent no-op where none
    /// does.
    pub fn delete_ingredient_by_id(&mut self, id: u128)
        ensures
            final(self)@ == old(self)@.filter(|g: IngredientV| g.id != id),
    {
        let ghost vs = self@;
        let ghost pred = |g: IngredientV| g.id != id;
        let mut kept: Vec<Ingredient> = Vec::new();
        let mut i: usize = 0;
        while i < self.rows.len()
            invariant
                i <= self.rows@.len(),
                vs == self@,
                vs.len() == self.rows@.len(),
                pred == (|g: IngredientV| g.id != id),
                kept@.map_values(|x: Ingredient| x@) == vs.take(i as int).filter(pred),
            decreases self.rows@.len() - i,
        {
            proof {
                assert(vs.take(i as int).push(vs[i as int]) =~= vs.take(i + 1));
                lemma_filter_push(vs.take(i as int), vs[i as int], pred);
            }
            let g = &self.rows[i];
            if g.id != id {
                kept.push(Ingredient { id: g.id, name: g.name.clone() });
                proof {
                    assert(kept@.map_values(|x: Ingredient| x@) =~= vs.take(i as int).filter(
                        pred,
                    ).push(vs[i as int]));
                }
            }
            i += 1;
        }
        proof {
            assert(vs.take(vs.len() as int) =~= vs);
        }
        self.rows = kept;
    }
}

/// Persists the link rows joining recipes to ingredient definitions.
pub struct LinkStore {
    rows: Vec<RecipeIngredient>,
}

impl View for LinkStore {
    type V = Seq<LinkV>;

    closed spec fn view(&self) -> Seq<LinkV> {
        self.rows@.map_values(|l: RecipeIngredient| l@)
    }
}

impl LinkStore {
    pub fn new() -> (s: LinkStore)
        ensures
            s@ == Seq::<LinkV>::empty(),
    {
        let s = LinkStore { rows: Vec::new() };
        proof {
            assert(s@ =~= Seq::<LinkV>::empty());
        }
        s
    }

    /// Single set-based insert of many link rows.
    pub fn bulk_insert_links(&mut self, mut rows: Vec<RecipeIngredient>)
        ensures
            final(self)@ == old(self)@ + rows@.map_values(|l: RecipeIngredient| l@),
    {
        let ghost vs = self@;
        let ghost added = rows@.map_values(|l: RecipeIngredient| l@);
        self.rows.append(&mut rows);
        proof {
            assert(self@ =~= vs + added);
        }
    }

    /// The link rows of one recipe, in store order; an empty vector (not an
    /// error) where the recipe has no ingredients.
    pub fn links_by_recipe(&self, rid: u128) -> (r: Vec<RecipeIngredient>)
        ensures
            r@.map_values(|l: RecipeIngredient| l@) == links_of(self@, rid),
    {
        let ghost vs = self@;
        let ghost pred = |l: LinkV| l.recid == rid;
        let mut out: Vec<RecipeIngredient> = Vec::new();
        let mut i: usize = 0;
        while i < self.rows.len()
            invariant
                i <= self.rows@.len(),
                vs == self@,
                vs.len() == self.rows@.len(),
                pred == (|l: LinkV| l.recid == rid),
                out@.map_values(|x: RecipeIngredient| x@) == vs.take(i as int).filter(pred),
            decreases self.rows@.len() - i,
        {
            proof {
                assert(vs.take(i as int).push(vs[i as int]) =~= vs.take(i + 1));
                lemma_filter_push(vs.take(i as int), vs[i as int], pred);
            }
            let l = &self.rows[i];
            if l.recid == rid {
                out.push(
                    RecipeIngredient {
                        amount: l.amount,
                        unit: l.unit.clone(),
                        recid: l.recid,
                        indid: l.indid,
                    },
                );
                proof {
                    assert(out@.map_values(|x: RecipeIngredient| x@) =~= vs.take(
                        i as int,
                    ).filter(pred).push(vs[i as int]));
                }
            }
            i += 1;
        }
        proof {
            assert(vs.take(vs.len() as int) =~= vs);
        }
        out
    }

    /// Deletes every link row referencing the ingredient id — deliberately by
    /// ingredient id alone, not scoped to one recipe; idempotent.
    pub fn delete_links_by_ingredient_id(&mut self, id: u128)
        ensures
            final(self)@ == old(self)@.filter(|l: LinkV| l.indid != id),
    {
        let ghost vs = self@;
        let ghost pred = |l: LinkV| l.indid != id;
        let mut kept: Vec<RecipeIngredient> = Vec::new();
        let mut i: usize = 0;
        while i < self.rows.len()
            invariant
                i <= self.rows@.len(),
                vs == self@,
                vs.len() == self.rows@.len(),
                pred == (|l: LinkV| l.indid != id),
                kept@.map_values(|x: RecipeIngredient| x@) == vs.take(i as int).filter(pred),
            decreases self.rows@.len() - i,
        {
            proof {
                assert(vs.take(i as int).push(vs[i as int]) =~= vs.take(i + 1));
                lemma_filter_push(vs.take(i as int), vs[i as int], pred);
            }
            let l = &self.rows[i];
            if l.indid != id {
                kept.push(
                    RecipeIngredient {
                        amount: l.amount,
                        unit: l.unit.clone(),
                        recid: l.recid,
                        indid: l.indid,
                    },
                );
                proof {
                    assert(kept@.map_values(|x: RecipeIngredient| x@) =~= vs.take(
                        i as int,
                    ).filter(pred).push(vs[i as int]));
                }
            }
            i += 1;
        }
        proof {
            assert(vs.take(vs.len() as int) =~= vs);
        }
        self.rows = kept;
    }
}

} // verus!
