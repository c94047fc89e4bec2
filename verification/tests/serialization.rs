use casbin_adapter::adapter::SeaOrmAdapter;
use casbin_adapter::rule::CasbinRule;

fn owned(fields: &[&str]) -> Vec<String> {
    fields.iter().map(|s| s.to_string()).collect()
}

fn row(ptype: &str, cols: [&str; 6]) -> CasbinRule {
    CasbinRule {
        ptype: ptype.to_string(),
        v0: cols[0].to_string(),
        v1: cols[1].to_string(),
        v2: cols[2].to_string(),
        v3: cols[3].to_string(),
        v4: cols[4].to_string(),
        v5: cols[5].to_string(),
    }
}

#[test]
fn round_trip_reproduces_fields() {
    let fields = owned(&["alice", "domain1", "data1", "read"]);
    let row = SeaOrmAdapter::save_policy_line("p", &fields).expect("persistable");
    assert_eq!(row.ptype, "p");
    assert_eq!(row.v0, "alice");
    assert_eq!(row.v1, "domain1");
    assert_eq!(row.v2, "data1");
    assert_eq!(row.v3, "read");
    assert_eq!(row.v4, "");
    assert_eq!(row.v5, "");
    let back = SeaOrmAdapter::load_policy_line(&row).expect("a rule");
    assert_eq!(back, owned(&["alice", "domain1", "data1", "read"]));
}

#[test]
fn round_trip_strips_trailing_empties() {
    let fields = owned(&["alice", "", ""]);
    let row = SeaOrmAdapter::save_policy_line("p", &fields).expect("persistable");
    let back = SeaOrmAdapter::load_policy_line(&row).expect("a rule");
    assert_eq!(back, owned(&["alice"]));
}

#[test]
fn round_trip_six_fields() {
    let fields = owned(&["a", "b", "c", "d", "e", "f"]);
    let row = SeaOrmAdapter::save_policy_line("g", &fields).expect("persistable");
    assert_eq!(row.v5, "f");
    let back = SeaOrmAdapter::load_policy_line(&row).expect("a rule");
    assert_eq!(back, owned(&["a", "b", "c", "d", "e", "f"]));
}

#[test]
fn to_row_rejects_empty_field_list() {
    assert!(SeaOrmAdapter::save_policy_line("p", &Vec::new()).is_none());
}

#[test]
fn to_row_rejects_blank_ptype() {
    let fields = owned(&["alice"]);
    assert!(SeaOrmAdapter::save_policy_line("", &fields).is_none());
    assert!(SeaOrmAdapter::save_policy_line("   ", &fields).is_none());
    assert!(SeaOrmAdapter::save_policy_line("\t\n", &fields).is_none());
}

#[test]
fn from_row_rejects_empty_ptype() {
    let r = row("", ["alice", "domain1", "", "", "", ""]);
    assert!(SeaOrmAdapter::load_policy_line(&r).is_none());
}

#[test]
fn from_row_rejects_all_empty_columns() {
    let r = row("p", ["", "", "", "", "", ""]);
    assert!(SeaOrmAdapter::load_policy_line(&r).is_none());
}

#[test]
fn normalize_keeps_inner_empties() {
    let r = row("p", ["alice", "", "data1", "", "", ""]);
    let back = SeaOrmAdapter::normalize_policy(&r).expect("a rule");
    assert_eq!(back, owned(&["alice", "", "data1"]));
}
