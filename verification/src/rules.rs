//! Server rules ("rule name" -> "rule value"), kept in reply order with
//! later entries replacing earlier ones of the same name.

use vstd::prelude::*;

verus! {

/// One rule as a server reports it.
#[derive(Debug)]
pub struct RuleEntry {
    pub name: String,
    pub value: String,
}

/// The map that a list of (name, value) pairs denotes when they are
/// inserted in order: a later pair replaces an earlier one of the same name.
pub open spec fn pairs_map(s: Seq<(Seq<char>, Seq<char>)>) -> Map<Seq<char>, Seq<char>>
    decreases s.len(),
{
    if s.len() == 0 {
        Map::empty()
    } else {
        pairs_map(s.drop_last()).insert(s.last().0, s.last().1)
    }
}

/// The (name, value) texts of a list of rules.
pub open spec fn rule_views(rules: Seq<RuleEntry>) -> Seq<(Seq<char>, Seq<char>)> {
    rules.map_values(|r: RuleEntry| (r.name@, r.value@))
}

/// The texts of a list of string pairs.
pub open spec fn pair_views(pairs: Seq<(String, String)>) -> Seq<(Seq<char>, Seq<char>)> {
    pairs.map_values(|p: (String, String)| (p.0@, p.1@))
}

/// No name occurs twice.
pub open spec fn names_distinct(s: Seq<(Seq<char>, Seq<char>)>) -> bool {
    forall|i: int, j: int| 0 <= i < j < s.len() ==> s[i].0 != s[j].0
}

/// A rule table: each name at most once.
#[derive(Debug)]
pub struct RuleMap {
    entries: Vec<(String, String)>,
}

impl View for RuleMap {
    type V = Map<Seq<char>, Seq<char>>;

    closed spec fn view(&self) -> Map<Seq<char>, Seq<char>> {
        pairs_map(pair_views(self.entries@))
    }
}

/// A name occurs in `pairs_map(s)` exactly when some pair carries it.
pub proof fn lemma_pairs_map_names(s: Seq<(Seq<char>, Seq<char>)>, name: Seq<char>)
    ensures
        pairs_map(s).contains_key(name) <==> exists|i: int| 0 <= i < s.len() && s[i].0 == name,
    decreases s.len(),
{
    if s.len() > 0 {
        lemma_pairs_map_names(s.drop_last(), name);
        if pairs_map(s.drop_last()).contains_key(name) {
            let i = choose|i: int| 0 <= i < s.drop_last().len() && s.drop_last()[i].0 == name;
            assert(s[i].0 == name);
        }
        if exists|i: int| 0 <= i < s.len() && s[i].0 == name {
            let i = choose|i: int| 0 <= i < s.len() && s[i].0 == name;
            if i < s.len() - 1 {
                assert(s.drop_last()[i].0 == name);
            }
        }
    }
}

/// The value of a name in `pairs_map(s)` is the one of the last pair with
/// that name: later pairs win.
pub proof fn law_last_pair_wins(s: Seq<(Seq<char>, Seq<char>)>, i: int)
    requires
        0 <= i < s.len(),
        forall|j: int| i < j < s.len() ==> s[j].0 != s[i].0,
    ensures
        pairs_map(s).contains_key(s[i].0),
        pairs_map(s)[s[i].0] == s[i].1,
    decreases s.len(),
{
    if i < s.len() - 1 {
        law_last_pair_wins(s.drop_last(), i);
    }
}

/// Replacing the value of a pair whose name is unique changes only that
/// name's value in the denoted map.
proof fn lemma_pairs_map_update(s: Seq<(Seq<char>, Seq<char>)>, i: int, value: Seq<char>)
    requires
        0 <= i < s.len(),
        names_distinct(s),
    ensures
        pairs_map(s.update(i, (s[i].0, value))) == pairs_map(s).insert(s[i].0, value),
    decreases s.len(),
{
    let name = s[i].0;
    let t = s.update(i, (name, value));
    if i == s.len() - 1 {
        assert(t.drop_last() =~= s.drop_last());
        assert(pairs_map(t) =~= pairs_map(s).insert(name, value));
    } else {
        assert(t.drop_last() =~= s.drop_last().update(i, (name, value)));
        lemma_pairs_map_update(s.drop_last(), i, value);
        assert(s.last().0 != name);
        assert(pairs_map(t) =~= pairs_map(s).insert(name, value));
    }
}

impl RuleMap {
    #[verifier::type_invariant]
    spec fn names_unique(self) -> bool {
        names_distinct(pair_views(self.entries@))
    }

    /// The empty table.
    pub fn new() -> (res: Self)
        ensures
            res@ == Map::<Seq<char>, Seq<char>>::empty(),
    {
        let res = RuleMap { entries: Vec::new() };
        assert(pair_views(res.entries@) =~= Seq::<(Seq<char>, Seq<char>)>::empty());
        res
    }

    /// Number of distinct names.
    pub fn len(&self) -> (n: usize)
        ensures
            n == self@.len(),
    {
        proof {
            use_type_invariant(self);
            lemma_distinct_len(pair_views(self.entries@));
        }
        self.entries.len()
    }

    /// Sets the value of `name`, replacing any earlier value.
    pub fn insert(&mut self, name: String, value: String)
        ensures
            final(self)@ == old(self)@.insert(name@, value@),
    {
        proof {
            use_type_invariant(&*self);
        }
        let mut entries: Vec<(String, String)> = Vec::new();
        std::mem::swap(&mut entries, &mut self.entries);
        let ghost old_views = pair_views(entries@);
        assert(old_views == pair_views(old(self).entries@));
        let n = entries.len();
        let mut i: usize = 0;
        while i < n
            invariant
                n == entries.len(),
                i <= n,
                old_views == pair_views(entries@),
                old_views == pair_views(old(self).entries@),
                names_distinct(old_views),
                forall|j: int| 0 <= j < i ==> old_views[j].0 != name@,
            decreases n - i,
        {
            if entries[i].0 == name {
                let ghost nv = value@;
                entries.set(i, (name, value));
                proof {
                    assert(old_views[i as int].0 == name@);
                    assert(pair_views(entries@) =~= old_views.update(i as int, (old_views[i as int].0, nv)));
                    lemma_pairs_map_update(old_views, i as int, nv);
                }
                self.entries = entries;
                return;
            }
            i = i + 1;
        }
        let ghost nm = name@;
        let ghost nv = value@;
        entries.push((name, value));
        proof {
            assert(pair_views(entries@) =~= old_views.push((nm, nv)));
            assert(pair_views(entries@).drop_last() =~= old_views);
        }
        self.entries = entries;
    }

    /// The value of `name`, if the table has one.
    pub fn get(&self, name: &str) -> (res: Option<String>)
        ensures
            res matches Some(v) ==> self@.contains_key(name@) && self@[name@] == v@,
            res is None ==> !self@.contains_key(name@),
    {
        proof {
            use_type_invariant(self);
        }
        let key: String = name.to_owned();
        let ghost views = pair_views(self.entries@);
        let n = self.entries.len();
        let mut i: usize = 0;
        while i < n
            invariant
                n == self.entries.len(),
                i <= n,
                views == pair_views(self.entries@),
                names_distinct(views),
                key@ == name@,
                forall|j: int| 0 <= j < i ==> views[j].0 != name@,
            decreases n - i,
        {
            if self.entries[i].0 == key {
                proof {
                    law_last_pair_wins(views, i as int);
                }
                return Some(self.entries[i].1.clone());
            }
            i = i + 1;
        }
        proof {
            lemma_pairs_map_names(views, name@);
        }
        None
    }

    /// The table built by inserting `rules` in order.
    pub fn from_rules(rules: &Vec<RuleEntry>) -> (res: Self)
        ensures
            res@ == pairs_map(rule_views(rules@)),
    {
        let mut map = RuleMap::new();
        let n = rules.len();
        let mut i: usize = 0;
        while i < n
            invariant
                n == rules.len(),
                i <= n,
                map@ == pairs_map(rule_views(rules@).take(i as int)),
            decreases n - i,
        {
            let name = rules[i].name.clone();
            let value = rules[i].value.clone();
            map.insert(name, value);
            proof {
                let t = rule_views(rules@).take(i + 1);
                assert(t.drop_last() =~= rule_views(rules@).take(i as int));
            }
            i = i + 1;
        }
        assert(rule_views(rules@).take(n as int) =~= rule_views(rules@));
        map
    }

    /// The (name, value) pairs of the table, each name once.
    pub fn into_pairs(self) -> (res: Vec<(String, String)>)
        ensures
            pairs_map(pair_views(res@)) == self@,
            names_distinct(pair_views(res@)),
    {
        proof {
            use_type_invariant(&self);
        }
        self.entries
    }
}

/// Distinct names: the denoted map has one key per pair.
proof fn lemma_distinct_len(s: Seq<(Seq<char>, Seq<char>)>)
    requires
        names_distinct(s),
    ensures
        pairs_map(s).dom().finite(),
        pairs_map(s).len() == s.len(),
    decreases s.len(),
{
    if s.len() > 0 {
        lemma_distinct_len(s.drop_last());
        lemma_pairs_map_names(s.drop_last(), s.last().0);
        assert(!pairs_map(s.drop_last()).contains_key(s.last().0));
    }
}

} // verus!
