//! The statement-level model of the rule table: the rows it holds and the
//! effect of each statement the adapter issues. Each method stands for one
//! parameterized statement against the connection provider and states its
//! effect on the rows exactly.

use vstd::prelude::*;
use vstd::seq_lib::group_seq_properties;
use crate::rule::{padded, row_model, rule_cols, CasbinRule};
use crate::text::str_eq;

verus! {

/// A row reduced to its meaning: the rule type and the six columns.
pub type RowModel = (Seq<char>, Seq<Seq<char>>);

/// The rows of a sequence, each reduced to its meaning.
pub open spec fn rows_model(rows: Seq<CasbinRule>) -> Seq<RowModel> {
    rows.map_values(|r: CasbinRule| row_model(r))
}

/// Whether a row is an exact match for a rule: same rule type, and the six
/// columns equal the fields padded with empty strings.
pub open spec fn matches_exact(row: RowModel, ptype: Seq<char>, fields: Seq<Seq<char>>) -> bool {
    row.0 == ptype && row.1 == padded(fields)
}

/// Whether a row matches a wildcard predicate: same rule type, and each
/// supplied value equals the column it constrains, starting at
/// `field_index`. Columns before `field_index` and past the supplied
/// values are unconstrained.
pub open spec fn matches_filtered(
    row: RowModel,
    ptype: Seq<char>,
    field_index: int,
    values: Seq<Seq<char>>,
) -> bool {
    row.0 == ptype && forall|j: int|
        0 <= j < values.len() ==> row.1[field_index + j] == #[trigger] values[j]
}

/// The rows left after deleting every row unconditionally: none.
pub open spec fn apply_clear(rows: Seq<RowModel>) -> Seq<RowModel> {
    Seq::empty()
}

/// The rows left after deleting every exact match for one rule.
pub open spec fn apply_remove_exact(
    rows: Seq<RowModel>,
    ptype: Seq<char>,
    fields: Seq<Seq<char>>,
) -> Seq<RowModel> {
    rows.filter(|r: RowModel| !matches_exact(r, ptype, fields))
}

/// The rows left after deleting every exact match for any rule of a batch.
pub open spec fn apply_remove_any_exact(
    rows: Seq<RowModel>,
    ptype: Seq<char>,
    batch: Seq<Seq<Seq<char>>>,
) -> Seq<RowModel> {
    rows.filter(
        |r: RowModel|
            !exists|k: int| 0 <= k < batch.len() && matches_exact(r, ptype, #[trigger] batch[k]),
    )
}

/// The rows left after deleting every match of a wildcard predicate.
pub open spec fn apply_remove_filtered(
    rows: Seq<RowModel>,
    ptype: Seq<char>,
    field_index: int,
    values: Seq<Seq<char>>,
) -> Seq<RowModel> {
    rows.filter(|r: RowModel| !matches_filtered(r, ptype, field_index, values))
}

/// The rule table as the adapter sees it: a sequence of rows.
pub struct RuleStore {
    pub rows: Vec<CasbinRule>,
}

impl View for RuleStore {
    type V = Seq<RowModel>;

    open spec fn view(&self) -> Seq<RowModel> {
        rows_model(self.rows@)
    }
}

/// Whether a row is an exact match for a rule, decided in code.
pub fn row_matches_exact(row: &CasbinRule, ptype: &str, fields: &Vec<String>) -> (r: bool)
    requires
        fields@.len() <= 6,
    ensures
        r == matches_exact(row_model(*row), ptype@, fields.deep_view()),
{
    let n = fields.len();
    if !str_eq(row.ptype.as_str(), ptype) {
        assert(!matches_exact(row_model(*row), ptype@, fields.deep_view()));
        return false;
    }
    let mut i: usize = 0;
    while i < 6
        invariant
            n == fields@.len() <= 6,
            row.ptype@ == ptype@,
            0 <= i <= 6,
            forall|j: int|
                0 <= j < i ==> rule_cols(*row)[j] == #[trigger] padded(fields.deep_view())[j],
        decreases 6 - i,
    {
        let col = col_of(row, i);
        let same = if i < n {
            str_eq(col.as_str(), fields[i].as_str())
        } else {
            col.as_str().is_empty()
        };
        if !same {
            assert(rule_cols(*row)[i as int] != padded(fields.deep_view())[i as int]);
            return false;
        }
        i = i + 1;
    }
    assert(rule_cols(*row) =~= padded(fields.deep_view()));
    true
}

/// The column of a row at an index.
pub fn col_of(row: &CasbinRule, i: usize) -> (c: &String)
    requires
        i < 6,
    ensures
        c@ == rule_cols(*row)[i as int],
{
    if i == 0 {
        &row.v0
    } else if i == 1 {
        &row.v1
    } else if i == 2 {
        &row.v2
    } else if i == 3 {
        &row.v3
    } else if i == 4 {
        &row.v4
    } else {
        &row.v5
    }
}

/// Whether a row matches a wildcard predicate, decided in code.
pub fn row_matches_filtered(
    row: &CasbinRule,
    ptype: &str,
    field_index: usize,
    values: &Vec<String>,
) -> (r: bool)
    requires
        field_index + values@.len() <= 6,
    ensures
        r == matches_filtered(row_model(*row), ptype@, field_index as int, values.deep_view()),
{
    let n = values.len();
    if !str_eq(row.ptype.as_str(), ptype) {
        return false;
    }
    let mut j: usize = 0;
    while j < n
        invariant
            n == values@.len(),
            field_index + n <= 6,
            row.ptype@ == ptype@,
            0 <= j <= n,
            forall|k: int|
                0 <= k < j ==> rule_cols(*row)[field_index + k] == #[trigger] values.deep_view()[k],
        decreases n - j,
    {
        let col = col_of(row, field_index + j);
        if !str_eq(col.as_str(), values[j].as_str()) {
            assert(rule_cols(*row)[field_index + j] != values.deep_view()[j as int]);
            return false;
        }
        j = j + 1;
    }
    true
}

/// Whether a row is an exact match for some rule of a batch, decided in
/// code.
pub fn row_matches_any(row: &CasbinRule, ptype: &str, batch: &Vec<Vec<String>>) -> (r: bool)
    requires
        forall|k: int| 0 <= k < batch@.len() ==> #[trigger] batch.deep_view()[k].len() <= 6,
    ensures
        r == exists|k: int|
            0 <= k < batch@.len() && matches_exact(
                row_model(*row),
                ptype@,
                #[trigger] batch.deep_view()[k],
            ),
{
    let n = batch.len();
    let mut k: usize = 0;
    while k < n
        invariant
            n == batch@.len(),
            0 <= k <= n,
            forall|j: int| 0 <= j < batch@.len() ==> #[trigger] batch.deep_view()[j].len() <= 6,
            forall|j: int|
                0 <= j < k ==> !matches_exact(row_model(*row), ptype@, #[trigger] batch.deep_view()[j]),
        decreases n - k,
    {
        assert(batch@[k as int].deep_view() == batch.deep_view()[k as int]);
        if row_matches_exact(row, ptype, &batch[k]) {
            assert(matches_exact(row_model(*row), ptype@, batch.deep_view()[k as int]));
            return true;
        }
        k = k + 1;
    }
    false
}

impl RuleStore {
    /// An empty table.
    pub fn new() -> (s: Self)
        ensures
            s@ =~= Seq::<RowModel>::empty(),
    {
        RuleStore { rows: Vec::new() }
    }

    /// Delete every row.
    pub fn clear(&mut self)
        ensures
            final(self)@ =~= apply_clear(old(self)@),
    {
        self.rows.clear();
    }

    /// Insert one row at the end.
    pub fn insert(&mut self, row: CasbinRule)
        ensures
            final(self)@ =~= old(self)@.push(row_model(row)),
    {
        self.rows.push(row);
    }

    /// Insert a batch of rows at the end, as one transaction.
    pub fn insert_all(&mut self, batch: Vec<CasbinRule>)
        ensures
            final(self)@ =~= old(self)@ + rows_model(batch@),
    {
        let ghost old_rows = self.rows@;
        let mut batch = batch;
        let ghost batch_snap = batch@;
        self.rows.append(&mut batch);
        assert(self.rows@ =~= old_rows + batch_snap);
        assert(final(self)@ =~= rows_model(old_rows) + rows_model(batch_snap));
    }

    /// Replace the whole table by a batch of rows, atomically: the old rows
    /// are deleted and the batch inserted in one transaction.
    pub fn replace_all(&mut self, batch: Vec<CasbinRule>)
        ensures
            final(self)@ =~= rows_model(batch@),
    {
        self.rows = batch;
    }

    /// Delete every exact match for one rule.
    pub fn remove_exact(&mut self, ptype: &str, fields: &Vec<String>)
        requires
            fields@.len() <= 6,
        ensures
            final(self)@ =~= apply_remove_exact(old(self)@, ptype@, fields.deep_view()),
    {
        broadcast use group_seq_properties;

        let ghost pred = (|r: RowModel| !matches_exact(r, ptype@, fields.deep_view()));
        let n = self.rows.len();
        let mut kept: Vec<CasbinRule> = Vec::new();
        let mut i: usize = 0;
        while i < n
            invariant
                n == self.rows@.len(),
                fields@.len() <= 6,
                0 <= i <= n,
                rows_model(kept@) =~= rows_model(self.rows@.subrange(0, i as int)).filter(pred),
                pred == (|r: RowModel| !matches_exact(r, ptype@, fields.deep_view())),
            decreases n - i,
        {
            let ghost prefix = rows_model(self.rows@.subrange(0, i as int));
            let row = self.rows[i].clone();
            if !row_matches_exact(&row, ptype, fields) {
                kept.push(row);
            }
            proof {
                let prefix1 = rows_model(self.rows@.subrange(0, i + 1));
                assert(prefix1.drop_last() =~= prefix);
                assert(prefix1.last() == row_model(self.rows@[i as int]));
                reveal(Seq::filter);
            }
            i = i + 1;
        }
        assert(self.rows@.subrange(0, n as int) =~= self.rows@);
        self.rows = kept;
    }

    /// Whether some row is an exact match for the rule.
    pub fn contains_exact(&self, ptype: &str, fields: &Vec<String>) -> (r: bool)
        requires
            fields@.len() <= 6,
        ensures
            r == exists|i: int|
                0 <= i < self@.len() && matches_exact(#[trigger] self@[i], ptype@, fields.deep_view()),
    {
        let n = self.rows.len();
        let mut i: usize = 0;
        while i < n
            invariant
                n == self.rows@.len(),
                fields@.len() <= 6,
                0 <= i <= n,
                forall|j: int|
                    0 <= j < i ==> !matches_exact(#[trigger] self@[j], ptype@, fields.deep_view()),
            decreases n - i,
        {
            if row_matches_exact(&self.rows[i], ptype, fields) {
                assert(matches_exact(self@[i as int], ptype@, fields.deep_view()));
                return true;
            }
            i = i + 1;
        }
        false
    }

    /// Whether some row is an exact match for some rule of a batch.
    pub fn contains_any_exact(&self, ptype: &str, batch: &Vec<Vec<String>>) -> (r: bool)
        requires
            forall|k: int| 0 <= k < batch@.len() ==> #[trigger] batch.deep_view()[k].len() <= 6,
        ensures
            r == exists|i: int, k: int|
                0 <= i < self@.len() && 0 <= k < batch@.len() && matches_exact(
                    #[trigger] self@[i],
                    ptype@,
                    #[trigger] batch.deep_view()[k],
                ),
    {
        let n = self.rows.len();
        let mut i: usize = 0;
        while i < n
            invariant
                n == self.rows@.len(),
                forall|k: int| 0 <= k < batch@.len() ==> #[trigger] batch.deep_view()[k].len() <= 6,
                0 <= i <= n,
                forall|j: int, k: int|
                    0 <= j < i && 0 <= k < batch@.len() ==> !matches_exact(
                        #[trigger] self@[j],
                        ptype@,
                        #[trigger] batch.deep_view()[k],
                    ),
            decreases n - i,
        {
            if row_matches_any(&self.rows[i], ptype, batch) {
                proof {
                    let k = choose|k: int|
                        0 <= k < batch@.len() && matches_exact(
                            row_model(self.rows@[i as int]),
                            ptype@,
                            #[trigger] batch.deep_view()[k],
                        );
                    assert(self@[i as int] == row_model(self.rows@[i as int]));
                    assert(matches_exact(self@[i as int], ptype@, batch.deep_view()[k]));
                }
                return true;
            }
            i = i + 1;
        }
        false
    }

    /// Delete every exact match for any rule of a batch, as one
    /// transaction.
    pub fn remove_any_exact(&mut self, ptype: &str, batch: &Vec<Vec<String>>)
        requires
            forall|k: int| 0 <= k < batch@.len() ==> #[trigger] batch.deep_view()[k].len() <= 6,
        ensures
            final(self)@ =~= apply_remove_any_exact(old(self)@, ptype@, batch.deep_view()),
    {
        broadcast use group_seq_properties;

        let ghost pred = (
        |r: RowModel|
            !exists|k: int|
                0 <= k < batch.deep_view().len() && matches_exact(
                    r,
                    ptype@,
                    #[trigger] batch.deep_view()[k],
                )
        );
        let n = self.rows.len();
        let mut kept: Vec<CasbinRule> = Vec::new();
        let mut i: usize = 0;
        while i < n
            invariant
                n == self.rows@.len(),
                forall|k: int| 0 <= k < batch@.len() ==> #[trigger] batch.deep_view()[k].len() <= 6,
                0 <= i <= n,
                rows_model(kept@) =~= rows_model(self.rows@.subrange(0, i as int)).filter(pred),
                pred == (
                |r: RowModel|
                    !exists|k: int|
                        0 <= k < batch.deep_view().len() && matches_exact(
                            r,
                            ptype@,
                            #[trigger] batch.deep_view()[k],
                        )
                ),
            decreases n - i,
        {
            let ghost prefix = rows_model(self.rows@.subrange(0, i as int));
            let row = self.rows[i].clone();
            if !row_matches_any(&row, ptype, batch) {
                kept.push(row);
            }
            proof {
                let prefix1 = rows_model(self.rows@.subrange(0, i + 1));
                assert(prefix1.drop_last() =~= prefix);
                assert(prefix1.last() == row_model(self.rows@[i as int]));
                reveal(Seq::filter);
            }
            i = i + 1;
        }
        assert(self.rows@.subrange(0, n as int) =~= self.rows@);
        self.rows = kept;
    }

    /// Delete every match of a wildcard predicate.
    pub fn remove_filtered(&mut self, ptype: &str, field_index: usize, values: &Vec<String>)
        requires
            field_index + values@.len() <= 6,
        ensures
            final(self)@ =~= apply_remove_filtered(
                old(self)@,
                ptype@,
                field_index as int,
                values.deep_view(),
            ),
    {
        broadcast use group_seq_properties;

        let ghost pred = (
        |r: RowModel| !matches_filtered(r, ptype@, field_index as int, values.deep_view())
        );
        let n = self.rows.len();
        let mut kept: Vec<CasbinRule> = Vec::new();
        let mut i: usize = 0;
        while i < n
            invariant
                n == self.rows@.len(),
                field_index + values@.len() <= 6,
                0 <= i <= n,
                rows_model(kept@) =~= rows_model(self.rows@.subrange(0, i as int)).filter(pred),
                pred == (
                |r: RowModel| !matches_filtered(r, ptype@, field_index as int, values.deep_view())
                ),
            decreases n - i,
        {
            let ghost prefix = rows_model(self.rows@.subrange(0, i as int));
            let row = self.rows[i].clone();
            if !row_matches_filtered(&row, ptype, field_index, values) {
                kept.push(row);
            }
            proof {
                let prefix1 = rows_model(self.rows@.subrange(0, i + 1));
                assert(prefix1.drop_last() =~= prefix);
                assert(prefix1.last() == row_model(self.rows@[i as int]));
                reveal(Seq::filter);
            }
            i = i + 1;
        }
        assert(self.rows@.subrange(0, n as int) =~= self.rows@);
        self.rows = kept;
    }
}

} // verus!
