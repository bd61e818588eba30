//! End-to-end scenarios of the composition manager on an in-memory store,
//! exercising the create, read, replace and delete protocol with identifiers
//! drawn from the real generator and times from the real clock.

use recipes::manager::{
    create_recipe_now, delete_recipe, get_ingredients, read_recipes, remove_ingredients,
    update_now, Store,
};
use recipes::model::{DeleteStatus, InpIngredient, OpError, RecipeIngredient};
use recipes::uuids;

fn inp(name: &str, amount: u64, unit: &str) -> InpIngredient {
    InpIngredient { name: name.to_string(), amount, unit: unit.to_string() }
}

fn triples(store: &Store, id: u128) -> Vec<(String, u64, String)> {
    get_ingredients(store, id)
        .expect("read should succeed")
        .into_iter()
        .map(|x| (x.name, x.amount, x.unit))
        .collect()
}

fn same_multiset(mut a: Vec<(String, u64, String)>, mut b: Vec<(String, u64, String)>) -> bool {
    a.sort();
    b.sort();
    a == b
}

#[test]
fn scenario_create_pancakes_and_read_back() {
    let mut store = Store::new();
    let ingredients = vec![inp("flour", 200, "g"), inp("egg", 2, "unit")];
    let rec = create_recipe_now(&mut store, "Pancakes".to_string(), &ingredients)
        .expect("create should succeed");
    assert_eq!(rec.rec_name, "Pancakes");
    assert_eq!(rec.inserted_at, rec.updated_at);
    let got = triples(&store, rec.id);
    let want = vec![
        ("flour".to_string(), 200, "g".to_string()),
        ("egg".to_string(), 2, "unit".to_string()),
    ];
    assert!(same_multiset(got, want));
}

#[test]
fn scenario_replace_pancakes_v2() {
    let mut store = Store::new();
    let rec = create_recipe_now(
        &mut store,
        "Pancakes".to_string(),
        &vec![inp("flour", 200, "g"), inp("egg", 2, "unit")],
    )
    .expect("create should succeed");
    update_now(&mut store, rec.id, "Pancakes v2".to_string(), &vec![inp("flour", 250, "g")])
        .expect("replace should succeed");
    let got = triples(&store, rec.id);
    assert_eq!(got, vec![("flour".to_string(), 250, "g".to_string())]);
    let headers = read_recipes(&store);
    assert_eq!(headers.len(), 1);
    assert_eq!(headers[0].rec_name, "Pancakes v2");
}

#[test]
fn scenario_delete_unknown_id_is_not_found() {
    let mut store = Store::new();
    let rec = create_recipe_now(&mut store, "Soup".to_string(), &vec![inp("water", 500, "ml")])
        .expect("create should succeed");
    let unknown = rec.id.wrapping_add(1);
    assert_eq!(delete_recipe(&mut store, unknown), DeleteStatus::NotFound);
    // No rows were mutated: header and ingredients still read back.
    assert_eq!(read_recipes(&store).len(), 1);
    assert_eq!(triples(&store, rec.id), vec![("water".to_string(), 500, "ml".to_string())]);
}

#[test]
fn scenario_create_empty_reads_empty() {
    let mut store = Store::new();
    let rec = create_recipe_now(&mut store, "Empty".to_string(), &vec![])
        .expect("create should succeed");
    assert_eq!(triples(&store, rec.id), vec![]);
    assert_eq!(read_recipes(&store).len(), 1);
}

#[test]
fn round_trip_keeps_repeated_names_as_separate_rows() {
    let mut store = Store::new();
    let ingredients = vec![inp("sugar", 50, "g"), inp("sugar", 50, "g"), inp("salt", 1, "tsp")];
    let rec = create_recipe_now(&mut store, "Syrup".to_string(), &ingredients)
        .expect("create should succeed");
    let got = triples(&store, rec.id);
    assert_eq!(got.len(), 3);
    let want = vec![
        ("sugar".to_string(), 50, "g".to_string()),
        ("sugar".to_string(), 50, "g".to_string()),
        ("salt".to_string(), 1, "tsp".to_string()),
    ];
    assert!(same_multiset(got, want));
}

#[test]
fn replace_twice_with_same_ingredients_reads_the_same() {
    let mut store = Store::new();
    let rec = create_recipe_now(&mut store, "Stew".to_string(), &vec![inp("beef", 300, "g")])
        .expect("create should succeed");
    let next = vec![inp("beans", 400, "g"), inp("rice", 100, "g")];
    update_now(&mut store, rec.id, "Stew".to_string(), &next).expect("first replace");
    let first = triples(&store, rec.id);
    update_now(&mut store, rec.id, "Stew".to_string(), &next).expect("second replace");
    let second = triples(&store, rec.id);
    assert_eq!(first, second);
}

#[test]
fn delete_removes_ingredients_completely() {
    let mut store = Store::new();
    let rec = create_recipe_now(
        &mut store,
        "Cake".to_string(),
        &vec![inp("flour", 300, "g"), inp("sugar", 150, "g")],
    )
    .expect("create should succeed");
    assert_eq!(delete_recipe(&mut store, rec.id), DeleteStatus::Deleted);
    assert_eq!(triples(&store, rec.id), vec![]);
    assert_eq!(read_recipes(&store).len(), 0);
    // Deleting again reports that nothing was there.
    assert_eq!(delete_recipe(&mut store, rec.id), DeleteStatus::NotFound);
}

#[test]
fn removal_protocol_alone_clears_links_and_definitions() {
    let mut store = Store::new();
    let rec = create_recipe_now(&mut store, "Tea".to_string(), &vec![inp("leaves", 5, "g")])
        .expect("create should succeed");
    remove_ingredients(&mut store, rec.id);
    assert_eq!(triples(&store, rec.id), vec![]);
    // The header itself stays: only the ingredient set was removed.
    assert_eq!(read_recipes(&store).len(), 1);
}

#[test]
fn dangling_link_is_a_not_found_fault() {
    let mut store = Store::new();
    let rec = create_recipe_now(&mut store, "Broth".to_string(), &vec![inp("bone", 1, "unit")])
        .expect("create should succeed");
    // Insert a link whose ingredient id resolves to no definition row: a
    // data-integrity fault the read must surface.
    let dangling = RecipeIngredient::new(9, "g".to_string(), rec.id, rec.id.wrapping_add(7));
    store.links.bulk_insert_links(vec![dangling]);
    assert_eq!(get_ingredients(&store, rec.id).unwrap_err(), OpError::NotFound);
}

#[test]
fn replace_on_unknown_id_creates_no_header() {
    let mut store = Store::new();
    update_now(&mut store, 42, "Ghost".to_string(), &vec![inp("air", 1, "l")])
        .expect("replace reports success even for an unknown id");
    // The header update was a no-op: no recipe row exists.
    assert_eq!(read_recipes(&store).len(), 0);
    // The bulk inserts still ran against the unknown id, as the protocol
    // prescribes: the triples are reachable through it.
    assert_eq!(triples(&store, 42), vec![("air".to_string(), 1, "l".to_string())]);
}

#[test]
fn uuids_repeats_one_id() {
    let v = uuids(7, 3);
    assert_eq!(v, vec![7, 7, 7]);
    assert_eq!(uuids(9, 0), Vec::<u128>::new());
}

#[test]
fn created_ids_are_distinct_across_recipes() {
    let mut store = Store::new();
    let a = create_recipe_now(&mut store, "A".to_string(), &vec![]).expect("create a");
    let b = create_recipe_now(&mut store, "B".to_string(), &vec![]).expect("create b");
    assert_ne!(a.id, b.id);
    assert_eq!(read_recipes(&store).len(), 2);
}

#[test]
fn replace_with_no_ingredients_always_succeeds() {
    let mut store = Store::new();
    let rec = create_recipe_now(&mut store, "Plain".to_string(), &vec![inp("oat", 40, "g")])
        .expect("create should succeed");
    update_now(&mut store, rec.id, "Plain".to_string(), &vec![])
        .expect("a replace that draws no identifiers cannot fail");
    assert_eq!(triples(&store, rec.id), vec![]);
    assert_eq!(read_recipes(&store).len(), 1);
}
