//! The laws the adapter obeys, proved from the contracts of its
//! operations.

use vstd::prelude::*;
use crate::adapter::{load_rows_abs, rows_of_rules, save_rows, section_rows};
use crate::model::{entry_rules, ModelKey, PolicyModel};
use crate::rule::{
    from_row_spec, lemma_trimmed_exact, padded, to_row_spec,
};
use crate::store::{apply_clear, apply_remove_filtered, matches_filtered, RowModel};
use crate::text::spec_is_blank;

verus! {

/// Round trip: a rule of one to six non-empty leading fields followed by
/// any number of empty trailing fields serializes to a row, and reading
/// that row back reproduces the fields with the trailing empties
/// stripped; the rule type of the row is never empty.
pub proof fn lemma_round_trip(ptype: Seq<char>, fields: Seq<Seq<char>>, k: int)
    requires
        !spec_is_blank(ptype),
        1 <= k <= fields.len() <= 6,
        forall|i: int| 0 <= i < k ==> #[trigger] fields[i].len() > 0,
        forall|i: int| k <= i < fields.len() ==> #[trigger] fields[i].len() == 0,
    ensures
        to_row_spec(ptype, fields) matches Some(row) && row.0.len() > 0 && from_row_spec(row)
            == Some(fields.subrange(0, k)),
{
    assert(ptype.len() > 0) by {
        if ptype.len() == 0 {
            assert(spec_is_blank(ptype));
        }
    }
    let row = to_row_spec(ptype, fields)->Some_0;
    assert(row.1 == padded(fields));
    assert(forall|i: int| 0 <= i < k ==> #[trigger] padded(fields)[i].len() > 0);
    assert(forall|i: int| k <= i < 6 ==> #[trigger] padded(fields)[i].len() == 0);
    lemma_trimmed_exact(padded(fields), k);
    assert(padded(fields).subrange(0, k) =~= fields.subrange(0, k));
}

/// A model whose rule lists are all empty saves to an empty table.
pub proof fn lemma_save_empty_model(m: PolicyModel)
    requires
        forall|i: int| 0 <= i < m.entries@.len() ==> entry_rules(#[trigger] m.entries@[i]).len()
            == 0,
    ensures
        save_rows(m) == Seq::<RowModel>::empty(),
{
    lemma_section_rows_empty(m.entries@, "p"@);
    lemma_section_rows_empty(m.entries@, "g"@);
    assert(save_rows(m) =~= Seq::<RowModel>::empty());
}

/// Entries without rules contribute no rows to a section.
proof fn lemma_section_rows_empty(entries: Seq<crate::model::ModelEntry>, sec: Seq<char>)
    requires
        forall|i: int| 0 <= i < entries.len() ==> entry_rules(#[trigger] entries[i]).len() == 0,
    ensures
        section_rows(entries, sec) == Seq::<RowModel>::empty(),
    decreases entries.len(),
{
    if entries.len() > 0 {
        lemma_section_rows_empty(entries.drop_last(), sec);
        assert(entries.last() == entries[entries.len() - 1]);
        assert(rows_of_rules(entries.last().ptype@, entry_rules(entries.last()))
            == Seq::<RowModel>::empty());
        assert(section_rows(entries, sec) =~= Seq::<RowModel>::empty());
    }
}

/// Loading an empty table leaves any model as it is.
pub proof fn lemma_load_empty_table(m: Map<ModelKey, Seq<Seq<Seq<char>>>>)
    ensures
        load_rows_abs(m, Seq::empty()) == m,
{
}

/// A filter that every element passes keeps the sequence whole.
proof fn lemma_filter_keeps_all<A>(s: Seq<A>, pred: spec_fn(A) -> bool)
    requires
        forall|i: int| 0 <= i < s.len() ==> pred(#[trigger] s[i]),
    ensures
        s.filter(pred) == s,
    decreases s.len(),
{
    reveal(Seq::filter);
    if s.len() > 0 {
        assert(forall|i: int|
            0 <= i < s.drop_last().len() ==> pred(#[trigger] s.drop_last()[i]));
        lemma_filter_keeps_all(s.drop_last(), pred);
        assert(pred(s.last()));
        assert(s.drop_last().push(s.last()) =~= s);
    }
}

/// Every row a batch of rules serializes to carries the batch's rule
/// type.
pub proof fn lemma_rows_of_rules_ptype(ptype: Seq<char>, rules: Seq<Seq<Seq<char>>>)
    ensures
        forall|i: int|
            0 <= i < rows_of_rules(ptype, rules).len() ==> #[trigger] rows_of_rules(
                ptype,
                rules,
            )[i].0 == ptype,
    decreases rules.len(),
{
    if rules.len() > 0 {
        lemma_rows_of_rules_ptype(ptype, rules.drop_last());
        let prev = rows_of_rules(ptype, rules.drop_last());
        let all = rows_of_rules(ptype, rules);
        assert forall|i: int| 0 <= i < all.len() implies #[trigger] all[i].0 == ptype by {
            if i < prev.len() {
                assert(all[i] == prev[i]);
            } else {
                let row = to_row_spec(ptype, rules.last())->Some_0;
                assert(all[i] == row);
            }
        }
    }
}

/// Adding a batch of rules of one rule type and removing by a wildcard
/// predicate over another rule type commute: the removal never touches
/// the added rows, and the addition never touches what the removal
/// decides. Whichever runs first, the table ends the same.
pub proof fn lemma_disjoint_add_remove_commute(
    rows: Seq<RowModel>,
    add_ptype: Seq<char>,
    rules: Seq<Seq<Seq<char>>>,
    remove_ptype: Seq<char>,
    field_index: int,
    values: Seq<Seq<char>>,
)
    requires
        add_ptype != remove_ptype,
    ensures
        apply_remove_filtered(
            rows + rows_of_rules(add_ptype, rules),
            remove_ptype,
            field_index,
            values,
        ) == apply_remove_filtered(rows, remove_ptype, field_index, values) + rows_of_rules(
            add_ptype,
            rules,
        ),
{
    let batch = rows_of_rules(add_ptype, rules);
    let pred = (|r: RowModel| !matches_filtered(r, remove_ptype, field_index, values));
    lemma_rows_of_rules_ptype(add_ptype, rules);
    assert(forall|i: int| 0 <= i < batch.len() ==> pred(#[trigger] batch[i]));
    Seq::filter_distributes_over_add(rows, batch, pred);
    lemma_filter_keeps_all(batch, pred);
}

/// Clearing is idempotent: clearing an already-cleared table leaves the
/// same empty table.
pub proof fn lemma_clear_idempotent(rows: Seq<RowModel>)
    ensures
        apply_clear(apply_clear(rows)) == apply_clear(rows),
        apply_clear(rows).len() == 0,
{
}

} // verus!
