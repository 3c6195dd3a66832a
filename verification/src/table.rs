//! The transition table: a mapping from (state name, symbol read) to the
//! unique applicable rule.  Inserting a rule whose key equals an existing
//! rule's key replaces the old rule (last write wins); lookup is an exact
//! match with no fallback.
//!
//! The table is modelled as a `Map` from the key pair `(name, symbol)` to the
//! mathematical content of the rule, and every operation is specified against
//! that map.

use vstd::prelude::*;
use crate::text::str_eq;

verus! {

/// The direction the head moves after a rule fires.  There is no `Stay`.
#[derive(PartialEq, Eq, Structural, Hash, Clone, Copy, Debug)]
pub enum TapeMove {
    Left,
    Right,
}

/// One transition rule.  The pair (`name`, `tape_symbol`) is the rule's key:
/// it fires when the machine is in state `name` and reads `tape_symbol`.  It
/// then writes `write_symbol`, moves the head by `move_tape`, and enters
/// `next_state`.
#[derive(Clone, Copy)]
pub struct State {
    pub name: &'static str,
    pub tape_symbol: char,
    pub write_symbol: char,
    pub move_tape: TapeMove,
    pub next_state: &'static str,
}

/// The mathematical content of a rule: what it writes, where it moves, and
/// the name of the state it enters.
#[verifier::ext_equal]
pub ghost struct Rule {
    pub write: char,
    pub dir: TapeMove,
    pub next: Seq<char>,
}

/// The key a rule is stored under: its state name and the symbol it reads.
pub open spec fn key_model(s: State) -> (Seq<char>, char) {
    (s.name@, s.tape_symbol)
}

/// The rule content of a stored entry.
pub open spec fn rule_model(s: State) -> Rule {
    Rule { write: s.write_symbol, dir: s.move_tape, next: s.next_state@ }
}

/// The map described by a sequence of rules, later entries overwriting
/// earlier ones with the same key.
pub open spec fn table_map(s: Seq<State>) -> Map<(Seq<char>, char), Rule>
    decreases s.len(),
{
    if s.len() == 0 {
        Map::empty()
    } else {
        table_map(s.drop_last()).insert(key_model(s.last()), rule_model(s.last()))
    }
}

/// No two stored rules share a key.
pub open spec fn keys_distinct(s: Seq<State>) -> bool {
    forall|i: int, j: int| 0 <= i < j < s.len() ==> key_model(s[i]) != key_model(s[j])
}

proof fn lemma_distinct_prefix(s: Seq<State>)
    requires
        s.len() > 0,
        keys_distinct(s),
    ensures
        keys_distinct(s.drop_last()),
{
    let p = s.drop_last();
    assert forall|i: int, j: int| 0 <= i < j < p.len() implies key_model(p[i]) != key_model(
        p[j],
    ) by {
        assert(p[i] == s[i]);
        assert(p[j] == s[j]);
    }
}

/// Key-membership law: a table built from a rule sequence holds exactly the
/// keys of the rules in the sequence, whether or not keys repeat.
pub proof fn lemma_table_map_dom(s: Seq<State>, k: (Seq<char>, char))
    ensures
        table_map(s).contains_key(k) <==> exists|i: int|
            0 <= i < s.len() && key_model(s[i]) == k,
    decreases s.len(),
{
    if s.len() > 0 {
        let p = s.drop_last();
        lemma_table_map_dom(p, k);
        if k == key_model(s.last()) {
            assert(key_model(s[s.len() - 1]) == k);
        } else {
            if table_map(s).contains_key(k) {
                let i = choose|i: int| 0 <= i < p.len() && key_model(p[i]) == k;
                assert(s[i] == p[i]);
                assert(key_model(s[i]) == k);
            }
            if exists|i: int| 0 <= i < s.len() && key_model(s[i]) == k {
                let i = choose|i: int| 0 <= i < s.len() && key_model(s[i]) == k;
                assert(s[s.len() - 1] == s.last());
                assert(i < s.len() - 1);
                assert(p[i] == s[i]);
                assert(key_model(p[i]) == k);
            }
        }
    }
}

/// Last-write-wins law: in a table built from a rule sequence, the rule
/// stored under a key is the last rule of the sequence with that key, also
/// when earlier rules shared it.
pub proof fn lemma_table_last_write_wins(s: Seq<State>, i: int)
    requires
        0 <= i < s.len(),
        forall|j: int| i < j < s.len() ==> key_model(s[j]) != key_model(s[i]),
    ensures
        table_map(s).contains_key(key_model(s[i])),
        table_map(s)[key_model(s[i])] == rule_model(s[i]),
    decreases s.len(),
{
    if i == s.len() - 1 {
        assert(s[i] == s.last());
    } else {
        let p = s.drop_last();
        assert(s[s.len() - 1] == s.last());
        assert(key_model(s.last()) != key_model(s[i]));
        assert(p[i] == s[i]);
        assert forall|j: int| i < j < p.len() implies key_model(p[j]) != key_model(p[i]) by {
            assert(p[j] == s[j]);
        }
        lemma_table_last_write_wins(p, i);
    }
}

proof fn lemma_table_map_get(s: Seq<State>, i: int)
    requires
        keys_distinct(s),
        0 <= i < s.len(),
    ensures
        table_map(s).contains_key(key_model(s[i])),
        table_map(s)[key_model(s[i])] == rule_model(s[i]),
    decreases s.len(),
{
    if i == s.len() - 1 {
        assert(s[i] == s.last());
    } else {
        let p = s.drop_last();
        lemma_distinct_prefix(s);
        assert(p[i] == s[i]);
        lemma_table_map_get(p, i);
        assert(s[s.len() - 1] == s.last());
        assert(key_model(s[i]) != key_model(s.last()));
    }
}

proof fn lemma_table_map_len(s: Seq<State>)
    requires
        keys_distinct(s),
    ensures
        table_map(s).dom().finite(),
        table_map(s).len() == s.len(),
    decreases s.len(),
{
    broadcast use vstd::set::group_set_axioms;

    if s.len() == 0 {
        assert(table_map(s).dom() =~= Set::<(Seq<char>, char)>::empty());
    } else {
        let p = s.drop_last();
        lemma_distinct_prefix(s);
        lemma_table_map_len(p);
        lemma_table_map_dom(p, key_model(s.last()));
        if table_map(p).contains_key(key_model(s.last())) {
            let i = choose|i: int| 0 <= i < p.len() && key_model(p[i]) == key_model(s.last());
            assert(s[i] == p[i]);
            assert(s[s.len() - 1] == s.last());
            assert(false);
        }
    }
}

proof fn lemma_table_map_update(s: Seq<State>, i: int, r: State)
    requires
        keys_distinct(s),
        0 <= i < s.len(),
        key_model(r) == key_model(s[i]),
    ensures
        table_map(s.update(i, r)) == table_map(s).insert(key_model(r), rule_model(r)),
    decreases s.len(),
{
    let u = s.update(i, r);
    if i == s.len() - 1 {
        assert(u.drop_last() =~= s.drop_last());
        assert(u.last() == r);
        assert(s[i] == s.last());
        assert(table_map(u) == table_map(s.drop_last()).insert(key_model(r), rule_model(r)));
        assert(table_map(s).insert(key_model(r), rule_model(r)) =~= table_map(
            s.drop_last(),
        ).insert(key_model(r), rule_model(r)));
    } else {
        let p = s.drop_last();
        lemma_distinct_prefix(s);
        assert(p[i] == s[i]);
        lemma_table_map_update(p, i, r);
        assert(u.drop_last() =~= p.update(i, r));
        assert(u.last() == s.last());
        assert(s[s.len() - 1] == s.last());
        assert(key_model(r) != key_model(s.last()));
        assert(table_map(u) == table_map(p).insert(key_model(r), rule_model(r)).insert(
            key_model(s.last()),
            rule_model(s.last()),
        ));
        assert(table_map(p).insert(key_model(r), rule_model(r)).insert(
            key_model(s.last()),
            rule_model(s.last()),
        ) =~= table_map(p).insert(key_model(s.last()), rule_model(s.last())).insert(
            key_model(r),
            rule_model(r),
        ));
    }
}

/// The transition table itself: a set of rules with pairwise distinct keys.
pub struct Table {
    rules: Vec<State>,
}

impl View for Table {
    type V = Map<(Seq<char>, char), Rule>;

    closed spec fn view(&self) -> Map<(Seq<char>, char), Rule> {
        table_map(self.rules@)
    }
}

impl Table {
    /// The representation invariant: stored keys are pairwise distinct.
    pub closed spec fn wf(&self) -> bool {
        keys_distinct(self.rules@)
    }

    /// The empty table.
    pub fn new() -> (t: Table)
        ensures
            t.wf(),
            t@ == Map::<(Seq<char>, char), Rule>::empty(),
    {
        Table { rules: Vec::new() }
    }

    fn find(&self, name: &str, symbol: char) -> (r: Option<usize>)
        requires
            self.wf(),
        ensures
            match r {
                Some(i) => i < self.rules@.len() && key_model(self.rules@[i as int]) == (
                    name@,
                    symbol,
                ),
                None => forall|j: int|
                    0 <= j < self.rules@.len() ==> key_model(self.rules@[j]) != (name@, symbol),
            },
    {
        let mut i: usize = 0;
        while i < self.rules.len()
            invariant
                0 <= i <= self.rules@.len(),
                forall|j: int| 0 <= j < i ==> key_model(self.rules@[j]) != (name@, symbol),
            decreases self.rules@.len() - i,
        {
            let candidate: &State = &self.rules[i];
            if str_eq(candidate.name, name) && candidate.tape_symbol == symbol {
                return Some(i);
            }
            i += 1;
        }
        None
    }

    /// Inserts a rule under its (state name, read symbol) key, replacing any
    /// rule already stored under that key.  The stored rule count grows by
    /// one exactly when the key is new.
    pub fn insert(&mut self, rule: State)
        requires
            old(self).wf(),
        ensures
            final(self).wf(),
            final(self)@ == old(self)@.insert(key_model(rule), rule_model(rule)),
            old(self)@.contains_key(key_model(rule)) ==> final(self)@.len() == old(self)@.len(),
            !old(self)@.contains_key(key_model(rule)) ==> final(self)@.len() == old(self)@.len()
                + 1,
    {
        proof {
            lemma_table_map_len(self.rules@);
            lemma_table_map_dom(self.rules@, key_model(rule));
        }
        let found: Option<usize> = self.find(rule.name, rule.tape_symbol);
        match found {
            Some(i) => {
                proof {
                    lemma_table_map_update(self.rules@, i as int, rule);
                }
                let ghost pre = self.rules@;
                self.rules[i] = rule;
                proof {
                    assert forall|x: int, y: int|
                        0 <= x < y < self.rules@.len() implies key_model(self.rules@[x])
                        != key_model(self.rules@[y]) by {
                        if x != i && y != i {
                            assert(self.rules@[x] == pre[x]);
                            assert(self.rules@[y] == pre[y]);
                        } else if x == i {
                            assert(self.rules@[y] == pre[y]);
                            assert(key_model(pre[x]) == key_model(rule));
                        } else {
                            assert(self.rules@[x] == pre[x]);
                            assert(key_model(pre[y]) == key_model(rule));
                        }
                    }
                    lemma_table_map_len(self.rules@);
                }
            },
            None => {
                let ghost pre = self.rules@;
                self.rules.push(rule);
                proof {
                    assert(self.rules@.drop_last() =~= pre);
                    assert forall|x: int, y: int|
                        0 <= x < y < self.rules@.len() implies key_model(self.rules@[x])
                        != key_model(self.rules@[y]) by {
                        if y < self.rules@.len() - 1 {
                            assert(self.rules@[x] == pre[x]);
                            assert(self.rules@[y] == pre[y]);
                        } else {
                            assert(self.rules@[x] == pre[x]);
                            assert(self.rules@[y] == rule);
                        }
                    }
                    lemma_table_map_len(self.rules@);
                }
            },
        }
    }

    /// The number of rules stored, which equals the number of distinct keys
    /// ever inserted.
    pub fn len(&self) -> (n: usize)
        requires
            self.wf(),
        ensures
            n == self@.len(),
    {
        proof {
            lemma_table_map_len(self.rules@);
        }
        self.rules.len()
    }

    /// Whether a rule is stored under the key of `rule`.  Only the key
    /// fields (state name and read symbol) of the argument are consulted,
    /// matching the table's key-only notion of rule identity.
    pub fn contains(&self, rule: &State) -> (r: bool)
        requires
            self.wf(),
        ensures
            r == self@.contains_key(key_model(*rule)),
    {
        proof {
            lemma_table_map_dom(self.rules@, key_model(*rule));
        }
        let found: Option<usize> = self.find(rule.name, rule.tape_symbol);
        match found {
            Some(_) => true,
            None => false,
        }
    }

    /// Exact-match lookup of the rule for (`name`, `symbol`).  Returns
    /// `None` exactly when the table defines no rule for that pair.
    pub fn lookup(&self, name: &str, symbol: char) -> (r: Option<State>)
        requires
            self.wf(),
        ensures
            match r {
                Some(rule) => self@.contains_key((name@, symbol)) && key_model(rule) == (
                    name@,
                    symbol,
                ) && rule_model(rule) == self@[(name@, symbol)],
                None => !self@.contains_key((name@, symbol)),
            },
    {
        proof {
            lemma_table_map_dom(self.rules@, (name@, symbol));
        }
        let found: Option<usize> = self.find(name, symbol);
        match found {
            Some(i) => {
                proof {
                    lemma_table_map_get(self.rules@, i as int);
                }
                Some(self.rules[i])
            },
            None => None,
        }
    }

    /// Table overwrite law: inserting under an existing key replaces the
    /// rule without growing the map, and inserting under a new key grows it
    /// by exactly one.
    pub proof fn lemma_insert_count(
        m: Map<(Seq<char>, char), Rule>,
        k: (Seq<char>, char),
        r: Rule,
    )
        requires
            m.dom().finite(),
        ensures
            m.insert(k, r)[k] == r,
            m.contains_key(k) ==> m.insert(k, r).len() == m.len(),
            !m.contains_key(k) ==> m.insert(k, r).len() == m.len() + 1,
    {
        broadcast use vstd::set::group_set_axioms;

    }
}

} // verus!
