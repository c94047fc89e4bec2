//! The parameterized delete statement of a filtered removal: one
//! equality clause per supplied value, ANDed with the rule-type clause.
//! Rule content never enters the statement text; it is passed as bound
//! parameters.

use vstd::prelude::*;
use crate::error::{Error, CODE_VALIDATION};

verus! {

/// The name of the value column at an index.
pub open spec fn col_name(i: int) -> Seq<char> {
    if i == 0 {
        "v0"@
    } else if i == 1 {
        "v1"@
    } else if i == 2 {
        "v2"@
    } else if i == 3 {
        "v3"@
    } else if i == 4 {
        "v4"@
    } else {
        "v5"@
    }
}

/// The equality clauses of the first `n` supplied values, starting at
/// column `field_index`.
pub open spec fn clause_text(field_index: int, n: int) -> Seq<char>
    decreases n,
{
    if n <= 0 {
        Seq::empty()
    } else {
        clause_text(field_index, n - 1) + " AND "@ + col_name(field_index + n - 1) + " = ?"@
    }
}

/// The whole statement text for a filtered removal of `n` supplied
/// values.
pub open spec fn delete_filtered_text(field_index: int, n: int) -> Seq<char> {
    "DELETE FROM casbin_rule WHERE ptype = ?"@ + clause_text(field_index, n)
}

/// The name of the value column at an index, as text.
pub fn col_name_str(i: usize) -> (r: &'static str)
    requires
        i < 6,
    ensures
        r@ == col_name(i as int),
{
    if i == 0 {
        "v0"
    } else if i == 1 {
        "v1"
    } else if i == 2 {
        "v2"
    } else if i == 3 {
        "v3"
    } else if i == 4 {
        "v4"
    } else {
        "v5"
    }
}

/// Build the delete statement of a filtered removal: the text with one
/// placeholder per clause, and the bound parameters, the rule type
/// first. Values that do not fit within the remaining columns are
/// rejected with a validation error.
pub fn delete_filtered_statement(ptype: &str, field_index: usize, field_values: &Vec<String>) -> (r:
    Result<(String, Vec<String>), Error>)
    ensures
        (r is Err) == (field_index > 5 || field_values@.len() > 6 - field_index),
        r matches Err(e) ==> e.code == CODE_VALIDATION,
        r matches Ok(sp) ==> sp.0@ == delete_filtered_text(
            field_index as int,
            field_values@.len() as int,
        ) && sp.1.deep_view() == seq![ptype@] + field_values.deep_view(),
{
    if field_index > 5 || field_values.len() > 6 - field_index {
        return Err(Error::arity_overflow());
    }
    let n = field_values.len();
    let mut sql = "DELETE FROM casbin_rule WHERE ptype = ?".to_owned();
    let mut params: Vec<String> = Vec::new();
    params.push(ptype.to_owned());
    proof {
        assert(sql@ =~= delete_filtered_text(field_index as int, 0));
        assert(params.deep_view() =~= seq![ptype@] + field_values.deep_view().subrange(0, 0));
    }
    let mut j: usize = 0;
    while j < n
        invariant
            n == field_values@.len(),
            field_index + n <= 6,
            field_index <= 5,
            0 <= j <= n,
            sql@ == delete_filtered_text(field_index as int, j as int),
            params.deep_view() == seq![ptype@] + field_values.deep_view().subrange(0, j as int),
        decreases n - j,
    {
        let ghost old_params = params.deep_view();
        sql.append(" AND ");
        sql.append(col_name_str(field_index + j));
        sql.append(" = ?");
        params.push(field_values[j].clone());
        proof {
            assert(sql@ =~= delete_filtered_text(field_index as int, j + 1));
            assert(field_values@[j as int].deep_view() == field_values.deep_view()[j as int]);
            assert(params.deep_view() =~= old_params.push(field_values.deep_view()[j as int]));
            assert(params.deep_view() =~= seq![ptype@] + field_values.deep_view().subrange(
                0,
                j + 1,
            ));
        }
        j = j + 1;
    }
    assert(field_values.deep_view().subrange(0, n as int) =~= field_values.deep_view());
    Ok((sql, params))
}

} // verus!
