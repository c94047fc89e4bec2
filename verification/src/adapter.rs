//! The rule storage adapter: translation between the policy model's
//! variable-arity rules and the fixed-width rows of the rule table, and
//! the load, save, add and remove operations over them.

use vstd::prelude::*;
use crate::error::{Error, CODE_VALIDATION};
use crate::model::{ModelKey, PolicyModel};
use crate::rule::{from_row_spec, row_model, rule_cols, to_row_spec, trimmed, CasbinRule};
use crate::store::{
    apply_remove_any_exact, apply_remove_exact, apply_remove_filtered, matches_exact, RowModel,
    RuleStore,
};
use crate::text::is_blank;

verus! {

/// What one row contributes to the model on load: nothing when its rule
/// type is empty, when the model has no list for its section and rule
/// type, when it carries no rule, or when the list already contains the
/// rule; otherwise the rule joins the end of that list. The section is
/// the first character of the rule type.
pub open spec fn load_row_abs(
    m: Map<ModelKey, Seq<Seq<Seq<char>>>>,
    row: RowModel,
) -> Map<ModelKey, Seq<Seq<Seq<char>>>> {
    if row.0.len() == 0 {
        m
    } else {
        let key = (seq![row.0[0]], row.0);
        if !m.dom().contains(key) {
            m
        } else {
            match from_row_spec(row) {
                None => m,
                Some(rule) => if m[key].contains(rule) {
                    m
                } else {
                    m.insert(key, m[key].push(rule))
                },
            }
        }
    }
}

/// The model after loading a sequence of rows, one after the other.
pub open spec fn load_rows_abs(
    m: Map<ModelKey, Seq<Seq<Seq<char>>>>,
    rows: Seq<RowModel>,
) -> Map<ModelKey, Seq<Seq<Seq<char>>>>
    decreases rows.len(),
{
    if rows.len() == 0 {
        m
    } else {
        load_rows_abs(load_row_abs(m, rows[0]), rows.drop_first())
    }
}

/// Loading the rows and then one more is loading the longer sequence.
pub proof fn lemma_load_rows_abs_push(
    m: Map<ModelKey, Seq<Seq<Seq<char>>>>,
    rows: Seq<RowModel>,
    row: RowModel,
)
    ensures
        load_rows_abs(m, rows.push(row)) == load_row_abs(load_rows_abs(m, rows), row),
    decreases rows.len(),
{
    reveal_with_fuel(load_rows_abs, 2);
    if rows.len() == 0 {
        assert(rows.push(row)[0] == row);
        assert(rows.push(row).drop_first() =~= Seq::<RowModel>::empty());
        assert(load_rows_abs(m, rows.push(row)) == load_rows_abs(
            load_row_abs(m, row),
            rows.push(row).drop_first(),
        ));
    } else {
        assert(rows.push(row)[0] == rows[0]);
        assert(rows.push(row).drop_first() =~= rows.drop_first().push(row));
        lemma_load_rows_abs_push(load_row_abs(m, rows[0]), rows.drop_first(), row);
        assert(load_rows_abs(m, rows.push(row)) == load_rows_abs(
            load_row_abs(m, rows[0]),
            rows.drop_first().push(row),
        ));
        assert(load_rows_abs(m, rows) == load_rows_abs(load_row_abs(m, rows[0]), rows.drop_first()));
    }
}

/// The rows that a batch of rules of one rule type serializes to, in
/// order, rules that are not persistable left out.
pub open spec fn rows_of_rules(ptype: Seq<char>, rules: Seq<Seq<Seq<char>>>) -> Seq<RowModel>
    decreases rules.len(),
{
    if rules.len() == 0 {
        Seq::empty()
    } else {
        rows_of_rules(ptype, rules.drop_last()) + (match to_row_spec(ptype, rules.last()) {
            Some(rm) => seq![rm],
            None => Seq::empty(),
        })
    }
}

/// The rows that the entries of one section serialize to, in entry
/// order.
pub open spec fn section_rows(entries: Seq<crate::model::ModelEntry>, sec: Seq<char>) -> Seq<
    RowModel,
>
    decreases entries.len(),
{
    if entries.len() == 0 {
        Seq::empty()
    } else {
        section_rows(entries.drop_last(), sec) + (if entries.last().sec@ == sec {
            rows_of_rules(entries.last().ptype@, crate::model::entry_rules(entries.last()))
        } else {
            Seq::empty()
        })
    }
}

/// The rows a full save writes: the grant section's rows, then the
/// role-inheritance section's.
pub open spec fn save_rows(m: PolicyModel) -> Seq<RowModel> {
    section_rows(m.entries@, "p"@) + section_rows(m.entries@, "g"@)
}

/// An engine-supplied filter for a partial load: for each of the two
/// rule-class sections, the column values a row must carry to be read,
/// the empty string standing for any value.
pub struct Filter {
    pub p: Vec<String>,
    pub g: Vec<String>,
}

/// Whether a row's columns carry each non-empty value of a filter
/// clause.
pub open spec fn clause_matches(fv: Seq<Seq<char>>, cols: Seq<Seq<char>>) -> bool {
    forall|i: int| 0 <= i < fv.len() ==> (#[trigger] fv[i].len() == 0 || cols[i] == fv[i])
}

/// Whether a filtered load reads a row: its rule type belongs to one of
/// the two rule-class sections and the columns match that section's
/// clause.
pub open spec fn filter_selects(fp: Seq<Seq<char>>, fg: Seq<Seq<char>>, row: RowModel) -> bool {
    row.0.len() > 0 && ((row.0[0] == 'p' && clause_matches(fp, row.1)) || (row.0[0] == 'g'
        && clause_matches(fg, row.1)))
}

/// The rule storage adapter. It owns the handle to the rule table and the
/// flag that records whether the last load was filtered.
pub struct SeaOrmAdapter {
    pub store: RuleStore,
    pub is_filtered: bool,
}

impl SeaOrmAdapter {
    /// An adapter over a table handle; no filtered load has happened yet.
    pub fn new(store: RuleStore) -> (a: Self)
        ensures
            a.store == store,
            !a.is_filtered,
    {
        SeaOrmAdapter { store, is_filtered: false }
    }

    /// Serialize one rule to a row: the fields fill the leading columns
    /// and the rest stay empty. Yields `None`, and no row, when the rule
    /// type is blank or the rule has no fields.
    pub fn save_policy_line(ptype: &str, rule: &Vec<String>) -> (r: Option<CasbinRule>)
        requires
            rule@.len() <= 6,
        ensures
            match r {
                None => to_row_spec(ptype@, rule.deep_view()) is None,
                Some(row) => to_row_spec(ptype@, rule.deep_view()) == Some(row_model(row)),
            },
    {
        if is_blank(ptype) || rule.len() == 0 {
            return None;
        }
        let mut row = CasbinRule {
            ptype: ptype.to_owned(),
            v0: String::new(),
            v1: String::new(),
            v2: String::new(),
            v3: String::new(),
            v4: String::new(),
            v5: String::new(),
        };
        let n = rule.len();
        if n > 0 {
            row.v0 = rule[0].clone();
        }
        if n > 1 {
            row.v1 = rule[1].clone();
        }
        if n > 2 {
            row.v2 = rule[2].clone();
        }
        if n > 3 {
            row.v3 = rule[3].clone();
        }
        if n > 4 {
            row.v4 = rule[4].clone();
        }
        if n > 5 {
            row.v5 = rule[5].clone();
        }
        proof {
            assert(rule_cols(row) =~= crate::rule::padded(rule.deep_view()));
        }
        Some(row)
    }

    /// Read the rule out of a row: the six columns with trailing empty
    /// entries dropped. Yields `None`, and no rule, when every column is
    /// empty.
    pub fn normalize_policy(row: &CasbinRule) -> (r: Option<Vec<String>>)
        ensures
            match r {
                None => trimmed(rule_cols(*row)).len() == 0,
                Some(v) => v.deep_view() == trimmed(rule_cols(*row)) && v@.len() > 0,
            },
    {
        let mut result: Vec<String> = Vec::new();
        result.push(row.v0.clone());
        result.push(row.v1.clone());
        result.push(row.v2.clone());
        result.push(row.v3.clone());
        result.push(row.v4.clone());
        result.push(row.v5.clone());
        assert(result.deep_view() =~= rule_cols(*row));
        while result.len() > 0 && result[result.len() - 1].as_str().is_empty()
            invariant
                trimmed(result.deep_view()) == trimmed(rule_cols(*row)),
            decreases result@.len(),
        {
            let ghost before = result.deep_view();
            result.pop();
            proof {
                assert(result.deep_view() =~= before.drop_last());
            }
        }
        if result.len() == 0 {
            assert(trimmed(result.deep_view()) =~= result.deep_view());
            None
        } else {
            assert(trimmed(result.deep_view()) =~= result.deep_view());
            Some(result)
        }
    }

    /// Read the rule out of a row, skipping rows whose rule type is
    /// empty.
    pub fn load_policy_line(row: &CasbinRule) -> (r: Option<Vec<String>>)
        ensures
            match r {
                None => from_row_spec(row_model(*row)) is None,
                Some(v) => from_row_spec(row_model(*row)) == Some(v.deep_view()) && v@.len() > 0
                    && v@.len() <= 6,
            },
    {
        if row.ptype.as_str().is_empty() {
            return None;
        }
        let r = Self::normalize_policy(row);
        proof {
            if r is Some {
                crate::rule::lemma_trimmed_prefix(rule_cols(*row));
            }
        }
        r
    }

    /// Insert what one row contributes into the model.
    fn load_row_into(m: &mut PolicyModel, row: &CasbinRule)
        requires
            old(m).wf(),
        ensures
            final(m).wf(),
            final(m).abs() == load_row_abs(old(m).abs(), row_model(*row)),
    {
        if row.ptype.as_str().is_empty() {
            return ;
        }
        let sec = row.ptype.as_str().substring_char(0, 1);
        proof {
            assert(sec@ =~= seq![row.ptype@[0]]);
        }
        let line = Self::load_policy_line(row);
        match line {
            None => {
                assert(load_row_abs(old(m).abs(), row_model(*row)) =~~= old(m).abs());
            },
            Some(rule) => {
                let ghost key: ModelKey = (sec@, row.ptype@);
                let ghost pre = m.abs();
                let _ = m.insert_rule(sec, row.ptype.as_str(), rule);
                proof {
                    assert(pre.dom().contains(key) == old(m).has(key.0, key.1));
                    if old(m).has(key.0, key.1) {
                        assert(pre[key] == old(m).rule_seq(key.0, key.1));
                    }
                    assert(final(m).abs() =~~= load_row_abs(pre, row_model(*row)));
                }
            },
        }
    }

    /// Load every row of the table into the model: for each row whose
    /// section and rule type the model knows and which carries a rule,
    /// the rule joins that rule type's list, once. Other rows are
    /// skipped, not faulted on.
    pub fn load_policy(&self, m: &mut PolicyModel) -> (r: Result<(), Error>)
        requires
            old(m).wf(),
        ensures
            r is Ok,
            final(m).wf(),
            final(m).abs() == load_rows_abs(old(m).abs(), self.store@),
    {
        let n = self.store.rows.len();
        let mut i: usize = 0;
        while i < n
            invariant
                n == self.store.rows@.len(),
                0 <= i <= n,
                m.wf(),
                m.abs() == load_rows_abs(old(m).abs(), self.store@.subrange(0, i as int)),
            decreases n - i,
        {
            proof {
                let prefix = self.store@.subrange(0, i as int);
                let prefix1 = self.store@.subrange(0, i + 1);
                assert(prefix1 =~= prefix.push(self.store@[i as int]));
                lemma_load_rows_abs_push(old(m).abs(), prefix, self.store@[i as int]);
                assert(self.store@[i as int] == row_model(self.store.rows@[i as int]));
            }
            let row = &self.store.rows[i];
            Self::load_row_into(m, row);
            i = i + 1;
        }
        assert(self.store@.subrange(0, n as int) =~= self.store@);
        Ok(())
    }

    /// Whether a row's columns carry each non-empty value of a filter
    /// clause, decided in code.
    fn clause_match(fv: &Vec<String>, row: &CasbinRule) -> (r: bool)
        requires
            fv@.len() <= 6,
        ensures
            r == clause_matches(fv.deep_view(), rule_cols(*row)),
    {
        let n = fv.len();
        let mut i: usize = 0;
        while i < n
            invariant
                n == fv@.len() <= 6,
                0 <= i <= n,
                forall|j: int|
                    0 <= j < i ==> (#[trigger] fv.deep_view()[j].len() == 0 || rule_cols(
                        *row,
                    )[j] == fv.deep_view()[j]),
            decreases n - i,
        {
            let v = &fv[i];
            if !v.as_str().is_empty() && !crate::text::str_eq(
                crate::store::col_of(row, i).as_str(),
                v.as_str(),
            ) {
                assert(fv.deep_view()[i as int].len() != 0 && rule_cols(*row)[i as int]
                    != fv.deep_view()[i as int]);
                return false;
            }
            i = i + 1;
        }
        true
    }

    /// Whether a filtered load reads a row, decided in code.
    fn row_selected(f: &Filter, row: &CasbinRule) -> (r: bool)
        requires
            f.p@.len() <= 6,
            f.g@.len() <= 6,
        ensures
            r == filter_selects(f.p.deep_view(), f.g.deep_view(), row_model(*row)),
    {
        if row.ptype.as_str().is_empty() {
            return false;
        }
        let c = row.ptype.as_str().get_char(0);
        if c == 'p' {
            Self::clause_match(&f.p, row)
        } else if c == 'g' {
            Self::clause_match(&f.g, row)
        } else {
            false
        }
    }

    /// Load only the rows a filter selects into the model, with the same
    /// per-row insertion as a full load, and record that the model is now
    /// filtered.
    pub fn load_filtered_policy(&mut self, m: &mut PolicyModel, f: &Filter) -> (r: Result<
        (),
        Error,
    >)
        requires
            old(m).wf(),
            f.p@.len() <= 6,
            f.g@.len() <= 6,
        ensures
            r is Ok,
            final(m).wf(),
            final(m).abs() == load_rows_abs(
                old(m).abs(),
                old(self).store@.filter(
                    |rm: RowModel| filter_selects(f.p.deep_view(), f.g.deep_view(), rm),
                ),
            ),
            final(self).store@ == old(self).store@,
            final(self).is_filtered,
    {
        let ghost sel = (|rm: RowModel| filter_selects(f.p.deep_view(), f.g.deep_view(), rm));
        let n = self.store.rows.len();
        let mut i: usize = 0;
        while i < n
            invariant
                n == self.store.rows@.len(),
                0 <= i <= n,
                m.wf(),
                f.p@.len() <= 6,
                f.g@.len() <= 6,
                self == old(self),
                m.abs() == load_rows_abs(
                    old(m).abs(),
                    self.store@.subrange(0, i as int).filter(sel),
                ),
                sel == (|rm: RowModel| filter_selects(f.p.deep_view(), f.g.deep_view(), rm)),
            decreases n - i,
        {
            proof {
                let prefix = self.store@.subrange(0, i as int);
                let prefix1 = self.store@.subrange(0, i + 1);
                assert(prefix1.drop_last() =~= prefix);
                assert(prefix1.last() == self.store@[i as int]);
                reveal(Seq::filter);
                if sel(self.store@[i as int]) {
                    assert(prefix1.filter(sel) =~= prefix.filter(sel).push(
                        self.store@[i as int],
                    ));
                    lemma_load_rows_abs_push(old(m).abs(), prefix.filter(sel), self.store@[i as int]);
                } else {
                    assert(prefix1.filter(sel) =~= prefix.filter(sel));
                }
                assert(self.store@[i as int] == row_model(self.store.rows@[i as int]));
            }
            let row = &self.store.rows[i];
            if Self::row_selected(f, row) {
                Self::load_row_into(m, row);
            }
            i = i + 1;
        }
        assert(self.store@.subrange(0, n as int) =~= self.store@);
        self.is_filtered = true;
        Ok(())
    }

    /// The rows of the entries of one section, in entry order.
    fn section_batch(m: &PolicyModel, sec: &str) -> (b: Vec<CasbinRule>)
        requires
            m.wf(),
        ensures
            crate::store::rows_model(b@) == section_rows(m.entries@, sec@),
    {
        let n = m.entries.len();
        let mut b: Vec<CasbinRule> = Vec::new();
        let mut i: usize = 0;
        while i < n
            invariant
                n == m.entries@.len(),
                m.wf(),
                0 <= i <= n,
                crate::store::rows_model(b@) =~= section_rows(
                    m.entries@.subrange(0, i as int),
                    sec@,
                ),
            decreases n - i,
        {
            let ghost prefix = m.entries@.subrange(0, i as int);
            let e = &m.entries[i];
            if crate::text::str_eq(e.sec.as_str(), sec) {
                let nr = e.rules.len();
                let mut j: usize = 0;
                while j < nr
                    invariant
                        n == m.entries@.len(),
                        m.wf(),
                        0 <= i < n,
                        nr == e.rules@.len(),
                        0 <= j <= nr,
                        e == &m.entries[i as int],
                        prefix == m.entries@.subrange(0, i as int),
                        crate::store::rows_model(b@) =~= section_rows(prefix, sec@)
                            + rows_of_rules(
                            e.ptype@,
                            crate::model::entry_rules(*e).subrange(0, j as int),
                        ),
                    decreases nr - j,
                {
                    let ghost rp = crate::model::entry_rules(*e).subrange(0, j as int);
                    proof {
                        assert(e.rules@[j as int].deep_view() == crate::model::entry_rules(
                            *e,
                        )[j as int]);
                    }
                    let ghost bs = b@;
                    let line = Self::save_policy_line(e.ptype.as_str(), &e.rules[j]);
                    match line {
                        None => (),
                        Some(row) => {
                            b.push(row);
                        },
                    }
                    proof {
                        let rp1 = crate::model::entry_rules(*e).subrange(0, j + 1);
                        assert(rp1.drop_last() =~= rp);
                        assert(rp1.last() == crate::model::entry_rules(*e)[j as int]);
                        assert(rows_of_rules(e.ptype@, rp1) == rows_of_rules(e.ptype@, rp) + (
                        match to_row_spec(e.ptype@, rp1.last()) {
                            Some(rm) => seq![rm],
                            None => Seq::<RowModel>::empty(),
                        }));
                        if line is Some {
                            assert(b@ =~= bs.push(line->Some_0));
                            assert(crate::store::rows_model(b@) =~= crate::store::rows_model(
                                bs,
                            ).push(row_model(line->Some_0)));
                        } else {
                            assert(b@ == bs);
                        }
                        assert(crate::store::rows_model(b@) =~= section_rows(prefix, sec@)
                            + rows_of_rules(e.ptype@, rp1));
                    }
                    j = j + 1;
                }
                proof {
                    assert(crate::model::entry_rules(*e).subrange(0, nr as int)
                        =~= crate::model::entry_rules(*e));
                }
            }
            proof {
                let prefix1 = m.entries@.subrange(0, i + 1);
                assert(prefix1.drop_last() =~= prefix);
                assert(prefix1.last() == m.entries@[i as int]);
            }
            i = i + 1;
        }
        assert(m.entries@.subrange(0, n as int) =~= m.entries@);
        b
    }

    /// Overwrite the whole table with the model's rules: every rule of
    /// both rule-class sections is serialized, rules that are not
    /// persistable are skipped, and the batch replaces the old rows
    /// atomically. An empty model yields an empty table.
    pub fn save_policy(&mut self, m: &PolicyModel) -> (r: Result<(), Error>)
        requires
            m.wf(),
        ensures
            r is Ok,
            final(self).store@ == save_rows(*m),
            final(self).is_filtered == old(self).is_filtered,
    {
        let mut batch = Self::section_batch(m, "p");
        let mut tail = Self::section_batch(m, "g");
        let ghost b1 = batch@;
        let ghost b2 = tail@;
        batch.append(&mut tail);
        proof {
            assert(batch@ =~= b1 + b2);
            assert(crate::store::rows_model(batch@) =~= crate::store::rows_model(b1)
                + crate::store::rows_model(b2));
        }
        self.store.replace_all(batch);
        Ok(())
    }

    /// Delete every row unconditionally. Clearing an empty table succeeds
    /// and is idempotent.
    pub fn clear_policy(&mut self) -> (r: Result<(), Error>)
        ensures
            r is Ok,
            final(self).store@ == crate::store::apply_clear(old(self).store@),
            final(self).store@.len() == 0,
            final(self).is_filtered == old(self).is_filtered,
    {
        self.store.clear();
        Ok(())
    }

    /// Whether the model was last populated by a filtered load, so that a
    /// full save would drop rows that were never loaded.
    pub fn is_filtered(&self) -> (r: bool)
        ensures
            r == self.is_filtered,
    {
        self.is_filtered
    }

    /// Add one rule. A rule that is not persistable is not added and
    /// `false` comes back, without error; otherwise its row is inserted.
    pub fn add_policy(&mut self, _sec: &str, ptype: &str, rule: Vec<String>) -> (r: Result<
        bool,
        Error,
    >)
        requires
            rule@.len() <= 6,
        ensures
            r is Ok,
            final(self).is_filtered == old(self).is_filtered,
            r matches Ok(b) ==> b == (to_row_spec(ptype@, rule.deep_view()) is Some),
            to_row_spec(ptype@, rule.deep_view()) matches Some(rm) ==> final(self).store@ == old(
                self,
            ).store@.push(rm),
            to_row_spec(ptype@, rule.deep_view()) is None ==> final(self).store@ == old(
                self,
            ).store@,
    {
        let line = Self::save_policy_line(ptype, &rule);
        match line {
            None => Ok(false),
            Some(row) => {
                self.store.insert(row);
                Ok(true)
            },
        }
    }

    /// Add a batch of rules as one transaction. Rules that are not
    /// persistable are dropped one by one; the surviving rows are
    /// inserted all together.
    pub fn add_policies(&mut self, _sec: &str, ptype: &str, rules: Vec<Vec<String>>) -> (r: Result<
        bool,
        Error,
    >)
        requires
            forall|k: int| 0 <= k < rules@.len() ==> #[trigger] rules.deep_view()[k].len() <= 6,
        ensures
            r is Ok,
            r matches Ok(b) ==> b,
            final(self).is_filtered == old(self).is_filtered,
            final(self).store@ == old(self).store@ + rows_of_rules(ptype@, rules.deep_view()),
    {
        let n = rules.len();
        let mut batch: Vec<CasbinRule> = Vec::new();
        let mut i: usize = 0;
        while i < n
            invariant
                n == rules@.len(),
                forall|k: int| 0 <= k < rules@.len() ==> #[trigger] rules.deep_view()[k].len() <= 6,
                0 <= i <= n,
                crate::store::rows_model(batch@) =~= rows_of_rules(
                    ptype@,
                    rules.deep_view().subrange(0, i as int),
                ),
            decreases n - i,
        {
            let ghost prefix = rules.deep_view().subrange(0, i as int);
            assert(rules@[i as int].deep_view() == rules.deep_view()[i as int]);
            let line = Self::save_policy_line(ptype, &rules[i]);
            match line {
                None => (),
                Some(row) => {
                    batch.push(row);
                },
            }
            proof {
                let prefix1 = rules.deep_view().subrange(0, i + 1);
                assert(prefix1.drop_last() =~= prefix);
                assert(prefix1.last() == rules.deep_view()[i as int]);
                assert(crate::store::rows_model(batch@) =~= rows_of_rules(ptype@, prefix1));
            }
            i = i + 1;
        }
        assert(rules.deep_view().subrange(0, n as int) =~= rules.deep_view());
        self.store.insert_all(batch);
        Ok(true)
    }

    /// Remove every row that matches one rule exactly, the rule padded
    /// with empty strings to the six columns. `true` comes back when at
    /// least one row matched.
    pub fn remove_policy(&mut self, _sec: &str, ptype: &str, rule: Vec<String>) -> (r: Result<
        bool,
        Error,
    >)
        requires
            rule@.len() <= 6,
        ensures
            r is Ok,
            final(self).is_filtered == old(self).is_filtered,
            final(self).store@ == apply_remove_exact(old(self).store@, ptype@, rule.deep_view()),
            r matches Ok(b) ==> b == exists|i: int|
                0 <= i < old(self).store@.len() && matches_exact(
                    #[trigger] old(self).store@[i],
                    ptype@,
                    rule.deep_view(),
                ),
    {
        let existed = self.store.contains_exact(ptype, &rule);
        self.store.remove_exact(ptype, &rule);
        Ok(existed)
    }

    /// Remove every row that matches any rule of a batch exactly, as one
    /// transaction. `true` comes back when at least one row matched.
    pub fn remove_policies(&mut self, _sec: &str, ptype: &str, rules: Vec<Vec<String>>) -> (r:
        Result<bool, Error>)
        requires
            forall|k: int| 0 <= k < rules@.len() ==> #[trigger] rules.deep_view()[k].len() <= 6,
        ensures
            r is Ok,
            final(self).is_filtered == old(self).is_filtered,
            final(self).store@ == apply_remove_any_exact(
                old(self).store@,
                ptype@,
                rules.deep_view(),
            ),
            r matches Ok(b) ==> b == exists|i: int, k: int|
                0 <= i < old(self).store@.len() && 0 <= k < rules@.len() && matches_exact(
                    #[trigger] old(self).store@[i],
                    ptype@,
                    #[trigger] rules.deep_view()[k],
                ),
    {
        let existed = self.store.contains_any_exact(ptype, &rules);
        self.store.remove_any_exact(ptype, &rules);
        Ok(existed)
    }

    /// Remove every row of a rule type whose columns equal the supplied
    /// values starting at `field_index`; the other columns are wildcards.
    /// Values that do not fit within the remaining columns are rejected
    /// with a validation error and no row is deleted. Zero rows deleted
    /// is a valid successful outcome.
    pub fn remove_filtered_policy(
        &mut self,
        _sec: &str,
        ptype: &str,
        field_index: usize,
        field_values: Vec<String>,
    ) -> (r: Result<bool, Error>)
        ensures
            final(self).is_filtered == old(self).is_filtered,
            (r is Err) == (field_index > 5 || field_values@.len() > 6 - field_index),
            r matches Err(e) ==> e.code == CODE_VALIDATION && final(self).store@ == old(
                self,
            ).store@,
            r matches Ok(b) ==> b && final(self).store@ == apply_remove_filtered(
                old(self).store@,
                ptype@,
                field_index as int,
                field_values.deep_view(),
            ),
    {
        if field_index > 5 || field_values.len() > 6 - field_index {
            return Err(Error::arity_overflow());
        }
        self.store.remove_filtered(ptype, field_index, &field_values);
        Ok(true)
    }
}

} // verus!
