//! The persisted shape of one rule: a rule type and six value columns.

use vstd::prelude::*;
use crate::text::spec_is_blank;

verus! {

/// One row of the rule table: the rule type `ptype` plus columns `v0`
/// through `v5`. Unused trailing columns hold the empty string. The
/// storage-internal identity column is owned by the backing store and is
/// not part of the adapter's model.
pub struct CasbinRule {
    pub ptype: String,
    pub v0: String,
    pub v1: String,
    pub v2: String,
    pub v3: String,
    pub v4: String,
    pub v5: String,
}

impl Clone for CasbinRule {
    fn clone(&self) -> (res: Self)
        ensures
            res == *self,
    {
        CasbinRule {
            ptype: self.ptype.clone(),
            v0: self.v0.clone(),
            v1: self.v1.clone(),
            v2: self.v2.clone(),
            v3: self.v3.clone(),
            v4: self.v4.clone(),
            v5: self.v5.clone(),
        }
    }
}

/// The six value columns of a row, as character sequences.
pub open spec fn rule_cols(r: CasbinRule) -> Seq<Seq<char>> {
    seq![r.v0@, r.v1@, r.v2@, r.v3@, r.v4@, r.v5@]
}

/// A row reduced to its meaning: the rule type and the six columns.
pub open spec fn row_model(r: CasbinRule) -> (Seq<char>, Seq<Seq<char>>) {
    (r.ptype@, rule_cols(r))
}

/// Fields padded on the right with empty strings to the six columns of a
/// row.
pub open spec fn padded(fields: Seq<Seq<char>>) -> Seq<Seq<char>> {
    Seq::new(6, |i: int| if i < fields.len() { fields[i] } else { Seq::<char>::empty() })
}

/// Columns with trailing empty entries dropped from the right.
pub open spec fn trimmed(cols: Seq<Seq<char>>) -> Seq<Seq<char>>
    decreases cols.len(),
{
    if cols.len() == 0 {
        cols
    } else if cols.last().len() == 0 {
        trimmed(cols.drop_last())
    } else {
        cols
    }
}

/// What serializing a rule yields: `None` when the rule type is blank or
/// the field list is empty (the rule is not persistable), otherwise the
/// row holding the padded fields.
pub open spec fn to_row_spec(ptype: Seq<char>, fields: Seq<Seq<char>>) -> Option<
    (Seq<char>, Seq<Seq<char>>),
> {
    if spec_is_blank(ptype) || fields.len() == 0 {
        None
    } else {
        Some((ptype, padded(fields)))
    }
}

/// What reading a row back yields: `None` when the rule type is empty or
/// every column is empty (the row carries no rule), otherwise the columns
/// with trailing empty entries dropped.
pub open spec fn from_row_spec(row: (Seq<char>, Seq<Seq<char>>)) -> Option<Seq<Seq<char>>> {
    if row.0.len() == 0 {
        None
    } else if trimmed(row.1).len() == 0 {
        None
    } else {
        Some(trimmed(row.1))
    }
}

/// Every sequence that `trimmed` returns is a prefix of its input whose
/// last entry, if any, is non-empty.
pub proof fn lemma_trimmed_prefix(cols: Seq<Seq<char>>)
    ensures
        trimmed(cols).len() <= cols.len(),
        trimmed(cols) == cols.subrange(0, trimmed(cols).len() as int),
        trimmed(cols).len() > 0 ==> trimmed(cols).last().len() > 0,
        forall|i: int|
            trimmed(cols).len() <= i < cols.len() ==> #[trigger] cols[i].len() == 0,
    decreases cols.len(),
{
    if cols.len() == 0 {
        assert(trimmed(cols) =~= cols.subrange(0, 0));
    } else if cols.last().len() == 0 {
        lemma_trimmed_prefix(cols.drop_last());
        assert(cols.drop_last() =~= cols.subrange(0, cols.len() - 1));
        assert(trimmed(cols) =~= cols.subrange(0, trimmed(cols).len() as int));
        assert forall|i: int|
            trimmed(cols).len() <= i < cols.len() implies #[trigger] cols[i].len() == 0 by {
            if i < cols.len() - 1 {
                assert(cols[i] == cols.drop_last()[i]);
            } else {
                assert(cols[i] == cols.last());
            }
        }
    } else {
        assert(trimmed(cols) =~= cols.subrange(0, cols.len() as int));
    }
}

/// When the columns are some non-empty entries followed only by empty
/// ones, `trimmed` returns exactly the non-empty prefix.
pub proof fn lemma_trimmed_exact(cols: Seq<Seq<char>>, k: int)
    requires
        0 <= k <= cols.len(),
        forall|i: int| 0 <= i < k ==> #[trigger] cols[i].len() > 0,
        forall|i: int| k <= i < cols.len() ==> #[trigger] cols[i].len() == 0,
    ensures
        trimmed(cols) == cols.subrange(0, k),
    decreases cols.len(),
{
    if cols.len() == 0 {
        assert(trimmed(cols) =~= cols.subrange(0, 0));
    } else if cols.last().len() == 0 {
        assert(k < cols.len());
        lemma_trimmed_exact(cols.drop_last(), k);
        assert(cols.drop_last().subrange(0, k) =~= cols.subrange(0, k));
    } else {
        assert(k == cols.len());
        assert(trimmed(cols) =~= cols.subrange(0, k));
    }
}

} // verus!
