//! The in-memory policy model the engine hands to the adapter: for each
//! section and rule type, the rules of that type. The adapter only ever
//! reads rule lists from an already-constructed model or inserts rules
//! into them; the caller builds the section/rule-type structure.

use vstd::prelude::*;
use crate::text::str_eq;

verus! {

/// The rules of one rule type, tagged with the section it belongs to.
pub struct ModelEntry {
    pub sec: String,
    pub ptype: String,
    pub rules: Vec<Vec<String>>,
}

/// A section name and a rule type, identifying one rule list.
pub type ModelKey = (Seq<char>, Seq<char>);

/// The key of an entry.
pub open spec fn entry_key(e: ModelEntry) -> ModelKey {
    (e.sec@, e.ptype@)
}

/// The rules of an entry, as character sequences.
pub open spec fn entry_rules(e: ModelEntry) -> Seq<Seq<Seq<char>>> {
    e.rules.deep_view()
}

/// A policy model: one entry per section and rule type.
pub struct PolicyModel {
    pub entries: Vec<ModelEntry>,
}

impl PolicyModel {
    /// Whether the model has a rule list for a section and rule type.
    pub open spec fn has(self, sec: Seq<char>, ptype: Seq<char>) -> bool {
        exists|i: int|
            0 <= i < self.entries@.len() && entry_key(#[trigger] self.entries@[i]) == (sec, ptype)
    }

    /// The index of the entry for a key the model has.
    pub open spec fn idx(self, sec: Seq<char>, ptype: Seq<char>) -> int {
        choose|i: int|
            0 <= i < self.entries@.len() && entry_key(#[trigger] self.entries@[i]) == (sec, ptype)
    }

    /// The rules for a section and rule type, empty when the model has no
    /// list for them.
    pub open spec fn rule_seq(self, sec: Seq<char>, ptype: Seq<char>) -> Seq<Seq<Seq<char>>> {
        if self.has(sec, ptype) {
            entry_rules(self.entries@[self.idx(sec, ptype)])
        } else {
            Seq::empty()
        }
    }

    /// The model as a map from keys to rule lists.
    pub open spec fn abs(self) -> Map<ModelKey, Seq<Seq<Seq<char>>>> {
        Map::new(|k: ModelKey| self.has(k.0, k.1), |k: ModelKey| self.rule_seq(k.0, k.1))
    }

    /// Well-formed: one entry per key, no duplicate rules in a list, and
    /// every rule within the six-column arity.
    pub open spec fn wf(self) -> bool {
        &&& forall|i: int, j: int|
            0 <= i < j < self.entries@.len() ==> entry_key(#[trigger] self.entries@[i]) != entry_key(
                #[trigger] self.entries@[j],
            )
        &&& forall|i: int, p: int, q: int|
            0 <= i < self.entries@.len() && 0 <= p < q < entry_rules(self.entries@[i]).len()
                ==> #[trigger] entry_rules(self.entries@[i])[p] != #[trigger] entry_rules(
                self.entries@[i],
            )[q]
        &&& forall|i: int, p: int|
            0 <= i < self.entries@.len() && 0 <= p < entry_rules(self.entries@[i]).len()
                ==> #[trigger] entry_rules(self.entries@[i])[p].len() <= 6
    }

    /// In a well-formed model the entry at any index is the one its key
    /// finds.
    pub proof fn lemma_entry_at(self, i: int)
        requires
            self.wf(),
            0 <= i < self.entries@.len(),
        ensures
            self.has(entry_key(self.entries@[i]).0, entry_key(self.entries@[i]).1),
            self.idx(entry_key(self.entries@[i]).0, entry_key(self.entries@[i]).1) == i,
            self.rule_seq(entry_key(self.entries@[i]).0, entry_key(self.entries@[i]).1)
                == entry_rules(self.entries@[i]),
    {
        let k = entry_key(self.entries@[i]);
        assert(self.has(k.0, k.1));
        let j = self.idx(k.0, k.1);
        if i != j {
            assert(entry_key(self.entries@[i]) != entry_key(self.entries@[j]));
        }
    }

    /// An empty model.
    pub fn new() -> (m: Self)
        ensures
            m.wf(),
            m.entries@.len() == 0,
            m.abs() =~~= Map::<ModelKey, Seq<Seq<Seq<char>>>>::empty(),
    {
        let m = PolicyModel { entries: Vec::new() };
        proof {
            assert(m.abs() =~~= Map::<ModelKey, Seq<Seq<Seq<char>>>>::empty());
        }
        m
    }

    /// The index of the entry for a section and rule type, if the model
    /// has one.
    pub fn find(&self, sec: &str, ptype: &str) -> (r: Option<usize>)
        ensures
            match r {
                None => !self.has(sec@, ptype@),
                Some(i) => i < self.entries@.len() && entry_key(self.entries@[i as int]) == (
                    sec@,
                    ptype@,
                ),
            },
    {
        let n = self.entries.len();
        let mut i: usize = 0;
        while i < n
            invariant
                n == self.entries@.len(),
                0 <= i <= n,
                forall|j: int|
                    0 <= j < i ==> entry_key(#[trigger] self.entries@[j]) != (sec@, ptype@),
            decreases n - i,
        {
            let e = &self.entries[i];
            if str_eq(e.sec.as_str(), sec) && str_eq(e.ptype.as_str(), ptype) {
                return Some(i);
            }
            i = i + 1;
        }
        None
    }

    /// Add an empty rule list for a section and rule type; nothing changes
    /// when the model already has one.
    pub fn add_ptype(&mut self, sec: &str, ptype: &str)
        requires
            old(self).wf(),
        ensures
            final(self).wf(),
            final(self).has(sec@, ptype@),
            final(self).abs() =~~= old(self).abs().insert(
                (sec@, ptype@),
                old(self).rule_seq(sec@, ptype@),
            ),
    {
        let found = self.find(sec, ptype);
        match found {
            Some(_) => {},
            None => {
                let e = ModelEntry {
                    sec: sec.to_owned(),
                    ptype: ptype.to_owned(),
                    rules: Vec::new(),
                };
                let ghost old_entries = self.entries@;
                self.entries.push(e);
                proof {
                    let m1 = *self;
                    let n = old_entries.len() as int;
                    assert(m1.entries@ =~= old_entries.push(e));
                    assert(entry_key(m1.entries@[n]) == (sec@, ptype@));
                    assert(entry_rules(m1.entries@[n]) =~= Seq::<Seq<Seq<char>>>::empty());
                    assert forall|k: ModelKey| m1.has(k.0, k.1) implies (old(self).has(k.0, k.1)
                        || k == (sec@, ptype@)) by {
                        let i = m1.idx(k.0, k.1);
                        if i < n {
                            assert(entry_key(old_entries[i]) == k);
                        }
                    }
                    assert forall|k: ModelKey|
                        old(self).has(k.0, k.1) implies m1.has(k.0, k.1) by {
                        let i = old(self).idx(k.0, k.1);
                        assert(entry_key(m1.entries@[i]) == k);
                    }
                    assert forall|k: ModelKey|
                        m1.has(k.0, k.1) implies m1.rule_seq(k.0, k.1) == (if k == (
                        sec@,
                        ptype@,
                    ) {
                        old(self).rule_seq(sec@, ptype@)
                    } else {
                        old(self).rule_seq(k.0, k.1)
                    }) by {
                        let i = m1.idx(k.0, k.1);
                        if k == (sec@, ptype@) {
                            if i < n {
                                assert(entry_key(old_entries[i]) == k);
                                assert(old(self).has(k.0, k.1));
                            }
                            assert(i == n);
                            assert(!old(self).has(k.0, k.1));
                            assert(m1.rule_seq(k.0, k.1) =~= Seq::<Seq<Seq<char>>>::empty());
                        } else {
                            assert(i < n);
                            assert(entry_key(old_entries[i]) == k);
                            old(self).lemma_entry_at(i);
                            m1.lemma_entry_at(i);
                        }
                    }
                    assert(m1.wf()) by {
                        assert forall|i: int, j: int|
                            0 <= i < j < m1.entries@.len() implies entry_key(
                            #[trigger] m1.entries@[i],
                        ) != entry_key(#[trigger] m1.entries@[j]) by {
                            if j == n {
                                assert(entry_key(m1.entries@[i]) == entry_key(old_entries[i]));
                                if entry_key(old_entries[i]) == (sec@, ptype@) {
                                    assert(old(self).has(sec@, ptype@));
                                }
                            }
                        }
                    }
                }
            },
        }
    }

    /// Whether a rule list contains a rule.
    pub fn contains_rule(rules: &Vec<Vec<String>>, rule: &Vec<String>) -> (r: bool)
        ensures
            r == rules.deep_view().contains(rule.deep_view()),
    {
        let n = rules.len();
        let mut i: usize = 0;
        while i < n
            invariant
                n == rules@.len(),
                0 <= i <= n,
                forall|j: int| 0 <= j < i ==> #[trigger] rules.deep_view()[j] != rule.deep_view(),
            decreases n - i,
        {
            if vec_str_eq(&rules[i], rule) {
                assert(rules.deep_view()[i as int] == rule.deep_view());
                return true;
            }
            i = i + 1;
        }
        assert(!rules.deep_view().contains(rule.deep_view()));
        false
    }

    /// Insert a rule into the list for a section and rule type. Nothing
    /// changes, and `false` comes back, when the model has no such list;
    /// nothing changes either when the list already contains the rule.
    pub fn insert_rule(&mut self, sec: &str, ptype: &str, rule: Vec<String>) -> (r: bool)
        requires
            old(self).wf(),
            rule@.len() <= 6,
        ensures
            final(self).wf(),
            r == old(self).has(sec@, ptype@),
            final(self).abs() =~~= (if old(self).has(sec@, ptype@) && !old(self).rule_seq(
                sec@,
                ptype@,
            ).contains(rule.deep_view()) {
                old(self).abs().insert(
                    (sec@, ptype@),
                    old(self).rule_seq(sec@, ptype@).push(rule.deep_view()),
                )
            } else {
                old(self).abs()
            }),
    {
        let found = self.find(sec, ptype);
        match found {
            None => false,
            Some(i) => {
                proof {
                    old(self).lemma_entry_at(i as int);
                }
                if Self::contains_rule(&self.entries[i].rules, &rule) {
                    return true;
                }
                let ghost old_entries = self.entries@;
                let ghost rv = rule.deep_view();
                self.entries[i].rules.push(rule);
                proof {
                    let m1 = *self;
                    let k: ModelKey = (sec@, ptype@);
                    let e1 = m1.entries@[i as int];
                    assert(m1.entries@ =~= old_entries.update(i as int, e1));
                    assert(entry_key(e1) == k);
                    assert(entry_rules(e1) =~= entry_rules(old_entries[i as int]).push(rv));
                    assert forall|j: int|
                        0 <= j < m1.entries@.len() implies entry_key(#[trigger] m1.entries@[j])
                        == entry_key(old_entries[j]) by {}
                    assert(m1.wf()) by {
                        assert forall|j: int, p: int, q: int|
                            0 <= j < m1.entries@.len() && 0 <= p < q < entry_rules(
                                m1.entries@[j],
                            ).len() implies #[trigger] entry_rules(m1.entries@[j])[p]
                            != #[trigger] entry_rules(m1.entries@[j])[q] by {
                            if j == i as int {
                                let olds = entry_rules(old_entries[j]);
                                if q == olds.len() {
                                    assert(entry_rules(m1.entries@[j])[p] == olds[p]);
                                    assert(!olds.contains(rv));
                                    assert(olds[p] != rv);
                                }
                            }
                        }
                    }
                    assert forall|kk: ModelKey| m1.has(kk.0, kk.1) <==> old(self).has(
                        kk.0,
                        kk.1,
                    ) by {
                        if m1.has(kk.0, kk.1) {
                            let j = m1.idx(kk.0, kk.1);
                            assert(entry_key(old_entries[j]) == kk);
                        }
                        if old(self).has(kk.0, kk.1) {
                            let j = old(self).idx(kk.0, kk.1);
                            assert(entry_key(m1.entries@[j]) == kk);
                        }
                    }
                    assert forall|kk: ModelKey| m1.has(kk.0, kk.1) implies m1.rule_seq(kk.0, kk.1)
                        == (if kk == k {
                        old(self).rule_seq(k.0, k.1).push(rv)
                    } else {
                        old(self).rule_seq(kk.0, kk.1)
                    }) by {
                        let j = m1.idx(kk.0, kk.1);
                        m1.lemma_entry_at(j);
                        old(self).lemma_entry_at(j);
                        if kk == k {
                            if j != i as int {
                                assert(entry_key(old_entries[j]) == k);
                                assert(entry_key(old_entries[i as int]) == k);
                                assert(!old(self).wf());
                            }
                        } else {
                            assert(j != i as int);
                        }
                    }
                }
                true
            },
        }
    }
}

/// Whether two rules hold the same fields.
pub fn vec_str_eq(a: &Vec<String>, b: &Vec<String>) -> (r: bool)
    ensures
        r == (a.deep_view() == b.deep_view()),
{
    let n = a.len();
    if n != b.len() {
        assert(a.deep_view().len() != b.deep_view().len());
        return false;
    }
    let mut i: usize = 0;
    while i < n
        invariant
            n == a@.len() == b@.len(),
            0 <= i <= n,
            forall|j: int| 0 <= j < i ==> #[trigger] a.deep_view()[j] == b.deep_view()[j],
        decreases n - i,
    {
        if !str_eq(a[i].as_str(), b[i].as_str()) {
            assert(a.deep_view()[i as int] != b.deep_view()[i as int]);
            return false;
        }
        i = i + 1;
    }
    assert(a.deep_view() =~= b.deep_view());
    true
}

} // verus!
