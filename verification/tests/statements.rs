use casbin_adapter::error::CODE_VALIDATION;
use casbin_adapter::statement::delete_filtered_statement;

fn owned(fields: &[&str]) -> Vec<String> {
    fields.iter().map(|s| s.to_string()).collect()
}

#[test]
fn delete_statement_one_clause_per_value() {
    let (sql, params) =
        delete_filtered_statement("p", 1, &owned(&["domain1", "data1"])).expect("fits");
    assert_eq!(sql, "DELETE FROM casbin_rule WHERE ptype = ? AND v1 = ? AND v2 = ?");
    assert_eq!(params, owned(&["p", "domain1", "data1"]));
}

#[test]
fn delete_statement_without_values_constrains_only_the_rule_type() {
    let (sql, params) = delete_filtered_statement("g", 3, &Vec::new()).expect("fits");
    assert_eq!(sql, "DELETE FROM casbin_rule WHERE ptype = ?");
    assert_eq!(params, owned(&["g"]));
}

#[test]
fn delete_statement_full_width() {
    let (sql, params) =
        delete_filtered_statement("p", 0, &owned(&["a", "b", "c", "d", "e", "f"])).expect("fits");
    assert_eq!(
        sql,
        "DELETE FROM casbin_rule WHERE ptype = ? AND v0 = ? AND v1 = ? AND v2 = ? AND v3 = ? AND v4 = ? AND v5 = ?"
    );
    assert_eq!(params.len(), 7);
}

#[test]
fn delete_statement_rejects_overflow() {
    let err = delete_filtered_statement("p", 2, &owned(&["a", "b", "c", "d", "e"]))
        .expect_err("five values cannot fit after column two");
    assert_eq!(err.code(), CODE_VALIDATION);
}
