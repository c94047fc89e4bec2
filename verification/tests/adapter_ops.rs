use casbin_adapter::adapter::{Filter, SeaOrmAdapter};
use casbin_adapter::error::CODE_VALIDATION;
use casbin_adapter::model::PolicyModel;
use casbin_adapter::rule::CasbinRule;
use casbin_adapter::store::RuleStore;

fn owned(fields: &[&str]) -> Vec<String> {
    fields.iter().map(|s| s.to_string()).collect()
}

fn row(ptype: &str, cols: [&str; 6]) -> CasbinRule {
    CasbinRule {
        ptype: ptype.to_string(),
        v0: cols[0].to_string(),
        v1: cols[1].to_string(),
        v2: cols[2].to_string(),
        v3: cols[3].to_string(),
        v4: cols[4].to_string(),
        v5: cols[5].to_string(),
    }
}

fn seeded(rows: Vec<CasbinRule>) -> SeaOrmAdapter {
    SeaOrmAdapter::new(RuleStore { rows })
}

fn model_pg() -> PolicyModel {
    let mut m = PolicyModel::new();
    m.add_ptype("p", "p");
    m.add_ptype("g", "g");
    m
}

fn rules_of<'a>(m: &'a PolicyModel, sec: &str, ptype: &str) -> &'a Vec<Vec<String>> {
    let i = m.find(sec, ptype).expect("the model knows the rule type");
    &m.entries[i].rules
}

#[test]
fn save_empty_model_then_load_yields_empty() {
    let mut a = seeded(vec![row("p", ["old", "", "", "", "", ""])]);
    let m = model_pg();
    a.save_policy(&m).expect("save");
    assert_eq!(a.store.rows.len(), 0);
    let mut loaded = model_pg();
    a.load_policy(&mut loaded).expect("load");
    assert!(rules_of(&loaded, "p", "p").is_empty());
    assert!(rules_of(&loaded, "g", "g").is_empty());
}

#[test]
fn add_then_load_full() {
    let mut a = seeded(Vec::new());
    let added = a
        .add_policy("p", "p", owned(&["alice", "domain1", "data1", "read"]))
        .expect("no storage fault");
    assert!(added);
    let mut m = model_pg();
    a.load_policy(&mut m).expect("load");
    let rules = rules_of(&m, "p", "p");
    assert_eq!(rules.len(), 1);
    assert_eq!(rules[0], owned(&["alice", "domain1", "data1", "read"]));
    assert!(rules_of(&m, "g", "g").is_empty());
}

#[test]
fn add_policy_rejects_unpersistable_without_error() {
    let mut a = seeded(Vec::new());
    let added = a.add_policy("p", "p", Vec::new()).expect("no storage fault");
    assert!(!added);
    let added = a.add_policy("p", "  ", owned(&["alice"])).expect("no storage fault");
    assert!(!added);
    assert_eq!(a.store.rows.len(), 0);
}

#[test]
fn add_policies_drops_unpersistable_rules() {
    let mut a = seeded(Vec::new());
    let batch = vec![owned(&["alice", "data1"]), Vec::new(), owned(&["bob", "data2"])];
    let ok = a.add_policies("p", "p", batch).expect("no storage fault");
    assert!(ok);
    assert_eq!(a.store.rows.len(), 2);
    assert_eq!(a.store.rows[0].v0, "alice");
    assert_eq!(a.store.rows[1].v0, "bob");
}

#[test]
fn remove_policy_is_exact_on_padded_tuple() {
    let mut a = seeded(vec![
        row("p", ["alice", "domain1", "", "", "", ""]),
        row("p", ["alice", "domain1", "data1", "", "", ""]),
    ]);
    let removed = a.remove_policy("p", "p", owned(&["alice", "domain1"])).expect("no fault");
    assert!(removed);
    assert_eq!(a.store.rows.len(), 1);
    assert_eq!(a.store.rows[0].v2, "data1");
    let removed = a.remove_policy("p", "p", owned(&["nobody"])).expect("no fault");
    assert!(!removed);
    assert_eq!(a.store.rows.len(), 1);
}

#[test]
fn remove_policies_removes_each_exact_match() {
    let mut a = seeded(vec![
        row("p", ["alice", "d1", "", "", "", ""]),
        row("p", ["bob", "d2", "", "", "", ""]),
        row("p", ["carol", "d3", "", "", "", ""]),
    ]);
    let removed = a
        .remove_policies("p", "p", vec![owned(&["alice", "d1"]), owned(&["carol", "d3"])])
        .expect("no fault");
    assert!(removed);
    assert_eq!(a.store.rows.len(), 1);
    assert_eq!(a.store.rows[0].v0, "bob");
}

#[test]
fn remove_filtered_deletes_matching_rows_only() {
    let mut a = seeded(vec![
        row("p", ["alice", "domain1", "data1", "read", "", ""]),
        row("p", ["bob", "domain1", "data2", "write", "", ""]),
        row("p", ["carol", "domain2", "data1", "read", "", ""]),
        row("g", ["x", "domain1", "", "", "", ""]),
    ]);
    let ok = a
        .remove_filtered_policy("p", "p", 1, owned(&["domain1"]))
        .expect("within the remaining columns");
    assert!(ok);
    let left: Vec<&str> = a.store.rows.iter().map(|r| r.v0.as_str()).collect();
    assert_eq!(left, vec!["carol", "x"]);
}

#[test]
fn remove_filtered_zero_matches_is_success() {
    let mut a = seeded(vec![row("p", ["alice", "domain1", "", "", "", ""])]);
    let ok = a
        .remove_filtered_policy("p", "p", 2, owned(&["nothing"]))
        .expect("within the remaining columns");
    assert!(ok);
    assert_eq!(a.store.rows.len(), 1);
}

#[test]
fn remove_filtered_arity_overflow_is_a_validation_error() {
    let mut a = seeded(vec![row("p", ["alice", "domain1", "", "", "", ""])]);
    let err = a
        .remove_filtered_policy("p", "p", 1, owned(&["a", "b", "c", "d", "e", "f"]))
        .expect_err("six values cannot fit after column one");
    assert_eq!(err.code(), CODE_VALIDATION);
    assert_eq!(a.store.rows.len(), 1);
}

#[test]
fn remove_filtered_bad_index_is_a_validation_error() {
    let mut a = seeded(vec![row("p", ["alice", "domain1", "", "", "", ""])]);
    let err = a
        .remove_filtered_policy("p", "p", 6, owned(&["a"]))
        .expect_err("no column past the sixth");
    assert_eq!(err.code(), CODE_VALIDATION);
    assert_eq!(a.store.rows.len(), 1);
}

#[test]
fn disjoint_add_batch_and_remove_filtered_commute() {
    let seed = vec![
        row("p", ["alice", "domain1", "", "", "", ""]),
        row("g", ["x", "domain1", "", "", "", ""]),
    ];
    let batch = vec![owned(&["bob", "domain2"]), owned(&["carol", "domain1"])];

    let mut first_add = seeded(seed.clone());
    first_add.add_policies("p", "p", batch.clone()).expect("no fault");
    first_add
        .remove_filtered_policy("g", "g", 1, owned(&["domain1"]))
        .expect("within the remaining columns");

    let mut first_remove = seeded(seed);
    first_remove
        .remove_filtered_policy("g", "g", 1, owned(&["domain1"]))
        .expect("within the remaining columns");
    first_remove.add_policies("p", "p", batch).expect("no fault");

    let view = |a: &SeaOrmAdapter| -> Vec<(String, String)> {
        a.store.rows.iter().map(|r| (r.ptype.clone(), r.v0.clone())).collect()
    };
    assert_eq!(view(&first_add), view(&first_remove));
    assert_eq!(view(&first_add), vec![
        ("p".to_string(), "alice".to_string()),
        ("p".to_string(), "bob".to_string()),
        ("p".to_string(), "carol".to_string()),
    ]);
}

#[test]
fn clear_twice_is_idempotent() {
    let mut a = seeded(vec![row("p", ["alice", "", "", "", "", ""])]);
    a.clear_policy().expect("clear");
    assert_eq!(a.store.rows.len(), 0);
    a.clear_policy().expect("clearing an empty table succeeds");
    assert_eq!(a.store.rows.len(), 0);
}

#[test]
fn load_skips_unknown_sections_and_rule_types() {
    let mut a = seeded(vec![
        row("q", ["other", "", "", "", "", ""]),
        row("p2", ["sub", "obj", "", "", "", ""]),
        row("", ["anon", "", "", "", "", ""]),
        row("p", ["alice", "", "", "", "", ""]),
    ]);
    let mut m = model_pg();
    a.load_policy(&mut m).expect("skips are not errors");
    let rules = rules_of(&m, "p", "p");
    assert_eq!(rules.len(), 1);
    assert_eq!(rules[0], owned(&["alice"]));
}

#[test]
fn load_inserts_each_rule_once() {
    let mut a = seeded(vec![
        row("p", ["alice", "data1", "", "", "", ""]),
        row("p", ["alice", "data1", "", "", "", ""]),
    ]);
    let mut m = model_pg();
    a.load_policy(&mut m).expect("load");
    assert_eq!(rules_of(&m, "p", "p").len(), 1);
}

#[test]
fn load_filtered_reads_matching_rows_and_sets_the_flag() {
    let mut a = seeded(vec![
        row("p", ["alice", "domain1", "", "", "", ""]),
        row("p", ["bob", "domain2", "", "", "", ""]),
        row("g", ["x", "domain1", "", "", "", ""]),
    ]);
    assert!(!a.is_filtered());
    let f = Filter { p: owned(&["", "domain1"]), g: Vec::new() };
    let mut m = model_pg();
    a.load_filtered_policy(&mut m, &f).expect("load");
    assert!(a.is_filtered());
    let rules = rules_of(&m, "p", "p");
    assert_eq!(rules.len(), 1);
    assert_eq!(rules[0], owned(&["alice", "domain1"]));
    let g_rules = rules_of(&m, "g", "g");
    assert_eq!(g_rules.len(), 1);
    assert_eq!(g_rules[0], owned(&["x", "domain1"]));
}

#[test]
fn new_adapter_is_not_filtered() {
    let a = SeaOrmAdapter::new(RuleStore::new());
    assert!(!a.is_filtered());
    assert_eq!(a.store.rows.len(), 0);
}

#[test]
fn save_writes_both_sections_and_skips_empty_rules() {
    let mut m = model_pg();
    m.add_ptype("p", "p2");
    let i = m.find("p", "p").unwrap();
    m.entries[i].rules.push(owned(&["alice", "data1"]));
    let i = m.find("g", "g").unwrap();
    m.entries[i].rules.push(owned(&["x", "group1"]));
    let i = m.find("p", "p2").unwrap();
    m.entries[i].rules.push(Vec::new());
    let mut a = seeded(vec![row("p", ["stale", "", "", "", "", ""])]);
    a.save_policy(&m).expect("save");
    assert_eq!(a.store.rows.len(), 2);
    assert_eq!(a.store.rows[0].ptype, "p");
    assert_eq!(a.store.rows[0].v0, "alice");
    assert_eq!(a.store.rows[1].ptype, "g");
    assert_eq!(a.store.rows[1].v0, "x");
}

#[test]
fn model_insert_rule_deduplicates() {
    let mut m = model_pg();
    assert!(m.insert_rule("p", "p", owned(&["alice"])));
    assert!(m.insert_rule("p", "p", owned(&["alice"])));
    assert_eq!(rules_of(&m, "p", "p").len(), 1);
    assert!(!m.insert_rule("p", "missing", owned(&["alice"])));
}
