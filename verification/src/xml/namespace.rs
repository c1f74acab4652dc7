//! Prefix-to-URI bindings in scope at an element.
use vstd::prelude::*;
use vstd::std_specs::cmp::PartialEqSpecImpl;
use crate::text::IntoXmlString;

verus! {

/// The bindings, read as pairs of character sequences.
pub open spec fn pairs_view(s: Seq<(String, String)>) -> Seq<(Seq<char>, Seq<char>)> {
    s.map_values(|p: (String, String)| (p.0@, p.1@))
}

/// No prefix occurs twice.
pub open spec fn distinct_keys(s: Seq<(Seq<char>, Seq<char>)>) -> bool {
    forall|i: int, j: int|
        0 <= i < s.len() && 0 <= j < s.len() && i != j ==> #[trigger] s[i].0 != #[trigger] s[j].0
}

/// Whether `k` is bound in `s`.
pub open spec fn has_key(s: Seq<(Seq<char>, Seq<char>)>, k: Seq<char>) -> bool {
    exists|i: int| 0 <= i < s.len() && #[trigger] s[i].0 == k
}

/// The map that a list of bindings with distinct prefixes denotes.
pub open spec fn map_of(s: Seq<(Seq<char>, Seq<char>)>) -> Map<Seq<char>, Seq<char>> {
    Map::new(
        |k: Seq<char>| has_key(s, k),
        |k: Seq<char>| s[choose|i: int| 0 <= i < s.len() && #[trigger] s[i].0 == k].1,
    )
}

proof fn lemma_map_of_index(s: Seq<(Seq<char>, Seq<char>)>, i: int)
    requires
        distinct_keys(s),
        0 <= i < s.len(),
    ensures
        map_of(s).contains_key(s[i].0),
        map_of(s)[s[i].0] == s[i].1,
{
    assert(has_key(s, s[i].0));
    let j = choose|j: int| 0 <= j < s.len() && #[trigger] s[j].0 == s[i].0;
    assert(s[j].0 == s[i].0);
}

proof fn lemma_map_of_push(s: Seq<(Seq<char>, Seq<char>)>, k: Seq<char>, v: Seq<char>)
    requires
        distinct_keys(s),
        !has_key(s, k),
    ensures
        distinct_keys(s.push((k, v))),
        map_of(s.push((k, v))) == map_of(s).insert(k, v),
{
    let t = s.push((k, v));
    assert forall|i: int, j: int|
        0 <= i < t.len() && 0 <= j < t.len() && i != j implies #[trigger] t[i].0 != #[trigger] t[j].0 by {
        if i < s.len() && j < s.len() {
            assert(t[i] == s[i] && t[j] == s[j]);
        } else if i < s.len() {
            assert(t[i] == s[i]);
        } else {
            assert(t[j] == s[j]);
        }
    }
    assert forall|q: Seq<char>| has_key(t, q) <==> (has_key(s, q) || q == k) by {
        if has_key(s, q) {
            let i = choose|i: int| 0 <= i < s.len() && #[trigger] s[i].0 == q;
            assert(t[i].0 == q);
        }
        if q == k {
            assert(t[s.len() as int].0 == q);
        }
        if has_key(t, q) && q != k {
            let i = choose|i: int| 0 <= i < t.len() && #[trigger] t[i].0 == q;
            assert(s[i].0 == q);
        }
    }
    assert forall|q: Seq<char>| #[trigger] map_of(t).contains_key(q) implies map_of(t)[q]
        == map_of(s).insert(k, v)[q] by {
        let i = choose|i: int| 0 <= i < t.len() && #[trigger] t[i].0 == q;
        lemma_map_of_index(t, i);
        if q != k {
            assert(i < s.len());
            assert(t[i] == s[i]);
            lemma_map_of_index(s, i);
        }
    }
    assert(map_of(t) =~= map_of(s).insert(k, v));
}

proof fn lemma_map_of_update(s: Seq<(Seq<char>, Seq<char>)>, i: int, v: Seq<char>)
    requires
        distinct_keys(s),
        0 <= i < s.len(),
    ensures
        distinct_keys(s.update(i, (s[i].0, v))),
        map_of(s.update(i, (s[i].0, v))) == map_of(s).insert(s[i].0, v),
{
    let k = s[i].0;
    let t = s.update(i, (k, v));
    assert forall|a: int, b: int|
        0 <= a < t.len() && 0 <= b < t.len() && a != b implies #[trigger] t[a].0 != #[trigger] t[b].0 by {
        assert(t[a].0 == s[a].0 && t[b].0 == s[b].0);
    }
    assert forall|q: Seq<char>| has_key(t, q) <==> has_key(s, q) by {
        if has_key(s, q) {
            let j = choose|j: int| 0 <= j < s.len() && #[trigger] s[j].0 == q;
            assert(t[j].0 == q);
        }
        if has_key(t, q) {
            let j = choose|j: int| 0 <= j < t.len() && #[trigger] t[j].0 == q;
            assert(s[j].0 == q);
        }
    }
    lemma_map_of_index(s, i);
    assert forall|q: Seq<char>| #[trigger] map_of(t).contains_key(q) implies map_of(t)[q]
        == map_of(s).insert(k, v)[q] by {
        let j = choose|j: int| 0 <= j < t.len() && #[trigger] t[j].0 == q;
        lemma_map_of_index(t, j);
        if j != i {
            assert(t[j] == s[j]);
            lemma_map_of_index(s, j);
        }
    }
    assert(map_of(t) =~= map_of(s).insert(k, v));
}

/// Parser-neutral namespace mapping: each prefix is bound to one URI.
#[derive(Debug)]
pub struct XmlNamespace {
    entries: Vec<(String, String)>,
}

impl XmlNamespace {
    #[verifier::type_invariant]
    spec fn prefixes_are_distinct(self) -> bool {
        distinct_keys(pairs_view(self.entries@))
    }

    /// The bindings in the order in which they were first made.
    pub closed spec fn bindings(&self) -> Seq<(Seq<char>, Seq<char>)> {
        pairs_view(self.entries@)
    }
}

impl View for XmlNamespace {
    type V = Map<Seq<char>, Seq<char>>;

    closed spec fn view(&self) -> Map<Seq<char>, Seq<char>> {
        map_of(pairs_view(self.entries@))
    }
}

impl XmlNamespace {
    /// The mapping with no bindings.
    pub fn empty() -> (ns: Self)
        ensures
            ns@ == Map::<Seq<char>, Seq<char>>::empty(),
            ns.bindings().len() == 0,
    {
        let ns = XmlNamespace { entries: Vec::new() };
        assert(map_of(pairs_view(ns.entries@)) =~= Map::<Seq<char>, Seq<char>>::empty());
        ns
    }

    pub fn is_empty(&self) -> (r: bool)
        ensures
            r == (self@ == Map::<Seq<char>, Seq<char>>::empty()),
    {
        let r = self.entries.len() == 0;
        if r {
            assert(map_of(pairs_view(self.entries@)) =~= Map::<Seq<char>, Seq<char>>::empty());
        } else {
            proof {
                use_type_invariant(self);
                lemma_map_of_index(pairs_view(self.entries@), 0);
            }
        }
        r
    }

    /// The position of the binding of `prefix`, if it is bound.
    fn position(&self, prefix: &String) -> (r: Option<usize>)
        ensures
            match r {
                Some(i) => i < self.entries@.len() && self.entries@[i as int].0@ == prefix@,
                None => !has_key(pairs_view(self.entries@), prefix@),
            },
    {
        let mut i: usize = 0;
        while i < self.entries.len()
            invariant
                i <= self.entries@.len(),
                forall|j: int| 0 <= j < i ==> #[trigger] self.entries@[j].0@ != prefix@,
            decreases self.entries@.len() - i,
        {
            if self.entries[i].0.eq(prefix) {
                return Some(i);
            }
            i += 1;
        }
        assert forall|j: int| 0 <= j < self.entries@.len() implies #[trigger] pairs_view(
            self.entries@,
        )[j].0 != prefix@ by {
            assert(self.entries@[j].0@ != prefix@);
        }
        None
    }

    /// The URI bound to `prefix`, if any.
    pub fn get(&self, prefix: &str) -> (r: Option<&String>)
        ensures
            match r {
                Some(u) => self@.contains_key(prefix@) && self@[prefix@] == u@,
                None => !self@.contains_key(prefix@),
            },
    {
        let key = prefix.to_owned();
        proof {
            use_type_invariant(self);
        }
        match self.position(&key) {
            Some(i) => {
                proof {
                    lemma_map_of_index(pairs_view(self.entries@), i as int);
                }
                Some(&self.entries[i].1)
            },
            None => None,
        }
    }

    /// Binds `prefix` to `uri`, replacing an earlier binding; returns the URI it
    /// was bound to before, if any.
    pub fn force_put<P: IntoXmlString, U: IntoXmlString>(&mut self, prefix: P, uri: U) -> (r:
        Option<String>)
        ensures
            final(self)@ == old(self)@.insert(prefix.text_view(), uri.text_view()),
            match r {
                Some(v) => old(self)@.contains_key(prefix.text_view()) && v@ == old(self)@[prefix.text_view()],
                None => !old(self)@.contains_key(prefix.text_view()),
            },
    {
        let p = prefix.into_xml_string();
        let u = uri.into_xml_string();
        self.put_string(p, u)
    }

    fn put_string(&mut self, p: String, u: String) -> (r: Option<String>)
        ensures
            final(self)@ == old(self)@.insert(p@, u@),
            match r {
                Some(v) => old(self)@.contains_key(p@) && v@ == old(self)@[p@],
                None => !old(self)@.contains_key(p@),
            },
    {
        proof {
            use_type_invariant(&*self);
        }
        let ghost s = pairs_view(self.entries@);
        match self.position(&p) {
            Some(i) => {
                let previous = self.entries[i].1.clone();
                proof {
                    lemma_map_of_index(s, i as int);
                    lemma_map_of_update(s, i as int, u@);
                }
                let mut entries: Vec<(String, String)> = Vec::new();
                std::mem::swap(&mut entries, &mut self.entries);
                entries.set(i, (p, u));
                assert(pairs_view(entries@) =~= s.update(i as int, (s[i as int].0, u@)));
                self.entries = entries;
                Some(previous)
            },
            None => {
                proof {
                    lemma_map_of_push(s, p@, u@);
                }
                let mut entries: Vec<(String, String)> = Vec::new();
                std::mem::swap(&mut entries, &mut self.entries);
                entries.push((p, u));
                assert(pairs_view(entries@) =~= s.push((p@, u@)));
                self.entries = entries;
                None
            },
        }
    }

    /// Binds `prefix` to `uri`, replacing an earlier binding; returns whether
    /// `prefix` was unbound before.
    pub fn put<P: IntoXmlString, U: IntoXmlString>(&mut self, prefix: P, uri: U) -> (r: bool)
        ensures
            final(self)@ == old(self)@.insert(prefix.text_view(), uri.text_view()),
            r == !old(self)@.contains_key(prefix.text_view()),
    {
        self.force_put(prefix, uri).is_none()
    }
}


proof fn lemma_map_of_take(s: Seq<(Seq<char>, Seq<char>)>, i: int)
    requires
        distinct_keys(s),
        0 <= i < s.len(),
    ensures
        distinct_keys(s.take(i)),
        map_of(s.take(i + 1)) == map_of(s.take(i)).insert(s[i].0, s[i].1),
{
    let t = s.take(i);
    assert forall|a: int, b: int|
        0 <= a < t.len() && 0 <= b < t.len() && a != b implies #[trigger] t[a].0 != #[trigger] t[b].0 by {
        assert(t[a] == s[a] && t[b] == s[b]);
    }
    if has_key(t, s[i].0) {
        let j = choose|j: int| 0 <= j < t.len() && #[trigger] t[j].0 == s[i].0;
        assert(t[j] == s[j]);
    }
    lemma_map_of_push(t, s[i].0, s[i].1);
    assert(s.take(i + 1) =~= t.push((s[i].0, s[i].1)));
}

impl XmlNamespace {
    /// Adds every binding of `other`; where both bind a prefix, `other` wins.
    pub fn extend(&mut self, other: &Self)
        ensures
            final(self)@ == old(self)@.union_prefer_right(other@),
    {
        proof {
            use_type_invariant(other);
        }
        let ghost s = pairs_view(other.entries@);
        assert(map_of(s.take(0)) =~= Map::<Seq<char>, Seq<char>>::empty());
        assert(old(self)@.union_prefer_right(map_of(s.take(0))) =~= old(self)@);
        let mut i: usize = 0;
        while i < other.entries.len()
            invariant
                i <= other.entries@.len(),
                s == pairs_view(other.entries@),
                distinct_keys(s),
                self@ == old(self)@.union_prefer_right(map_of(s.take(i as int))),
            decreases other.entries@.len() - i,
        {
            let k = other.entries[i].0.clone();
            let v = other.entries[i].1.clone();
            proof {
                lemma_map_of_take(s, i as int);
            }
            self.put_string(k, v);
            assert(self@ =~= old(self)@.union_prefer_right(map_of(s.take(i + 1))));
            i += 1;
        }
        assert(s.take(other.entries@.len() as int) =~= s);
    }

    /// Builds the mapping that binds the pairs in turn, a later pair winning
    /// over an earlier one with the same prefix.
    pub fn from_pairs(pairs: Vec<(String, String)>) -> (ns: Self)
        ensures
            ns@ == map_of_pairs_in_turn(pairs_view(pairs@)),
    {
        let mut ns = XmlNamespace::empty();
        let ghost s = pairs_view(pairs@);
        let mut i: usize = 0;
        let n = pairs.len();
        while i < n
            invariant
                i <= n,
                n == s.len(),
                s == pairs_view(pairs@),
                ns@ == map_of_pairs_in_turn(s.take(i as int)),
            decreases n - i,
        {
            let k = pairs[i].0.clone();
            let v = pairs[i].1.clone();
            assert(k@ == s[i as int].0 && v@ == s[i as int].1);
            ns.put_string(k, v);
            assert(s.take(i + 1).drop_last() =~= s.take(i as int));
            i += 1;
        }
        assert(s.take(n as int) =~= s);
        ns
    }

    /// The bindings as owned pairs, in binding order.
    pub fn to_pairs(&self) -> (r: Vec<(String, String)>)
        ensures
            pairs_view(r@) == self.bindings(),
            distinct_keys(pairs_view(r@)),
            map_of(pairs_view(r@)) == self@,
    {
        proof {
            use_type_invariant(self);
        }
        let mut r: Vec<(String, String)> = Vec::new();
        let mut i: usize = 0;
        while i < self.entries.len()
            invariant
                i <= self.entries@.len(),
                pairs_view(r@) == pairs_view(self.entries@).take(i as int),
            decreases self.entries@.len() - i,
        {
            let k = self.entries[i].0.clone();
            let v = self.entries[i].1.clone();
            let ghost before = r@;
            r.push((k, v));
            assert(r@ == before.push((k, v)));
            assert(pairs_view(r@) =~= pairs_view(before).push((k@, v@)));
            assert(pairs_view(r@) =~= pairs_view(self.entries@).take(i + 1));
            i += 1;
        }
        assert(pairs_view(self.entries@).take(i as int) =~= pairs_view(self.entries@));
        r
    }
}

/// The mapping obtained by binding each pair of `s` in turn.
pub open spec fn map_of_pairs_in_turn(s: Seq<(Seq<char>, Seq<char>)>) -> Map<Seq<char>, Seq<char>>
    decreases s.len(),
{
    if s.len() == 0 {
        Map::empty()
    } else {
        map_of_pairs_in_turn(s.drop_last()).insert(s.last().0, s.last().1)
    }
}

impl Clone for XmlNamespace {
    fn clone(&self) -> (r: Self)
        ensures
            r@ == self@,
            r.bindings() == self.bindings(),
    {
        proof {
            use_type_invariant(self);
        }
        let entries = self.to_pairs();
        XmlNamespace { entries }
    }
}

impl Default for XmlNamespace {
    fn default() -> (r: Self)
        ensures
            r@ == Map::<Seq<char>, Seq<char>>::empty(),
    {
        XmlNamespace::empty()
    }
}

impl XmlNamespace {
    /// Whether every binding of `self` is also a binding of `other`.
    fn bindings_within(&self, other: &Self) -> (r: bool)
        ensures
            r == self@.submap_of(other@),
    {
        proof {
            use_type_invariant(self);
        }
        let ghost s = pairs_view(self.entries@);
        let mut i: usize = 0;
        while i < self.entries.len()
            invariant
                i <= self.entries@.len(),
                s == pairs_view(self.entries@),
                distinct_keys(s),
                forall|j: int| 0 <= j < i ==> #[trigger] other@.contains_key(s[j].0) && other@[s[j].0] == s[j].1,
            decreases self.entries@.len() - i,
        {
            assert(s[i as int] == (self.entries@[i as int].0@, self.entries@[i as int].1@));
            match other.get(self.entries[i].0.as_str()) {
                Some(u) => {
                    if !u.eq(&self.entries[i].1) {
                        proof {
                            lemma_map_of_index(s, i as int);
                        }
                        return false;
                    }
                    assert(other@.contains_key(s[i as int].0) && other@[s[i as int].0] == s[i as int].1);
                    assert forall|j: int| 0 <= j < i + 1 implies #[trigger] other@.contains_key(s[j].0)
                        && other@[s[j].0] == s[j].1 by {
                    }
                },
                None => {
                    proof {
                        lemma_map_of_index(s, i as int);
                    }
                    return false;
                },
            }
            i += 1;
        }
        assert forall|k: Seq<char>| #[trigger] self@.contains_key(k) implies other@.contains_key(k) && other@[k] == self@[k] by {
            let j = choose|j: int| 0 <= j < s.len() && #[trigger] s[j].0 == k;
            lemma_map_of_index(s, j);
        }
        true
    }
}

impl PartialEq for XmlNamespace {
    fn eq(&self, other: &Self) -> (r: bool) {
        let r = self.bindings_within(other) && other.bindings_within(self);
        proof {
            if r {
                assert(self@ =~= other@);
            }
        }
        r
    }
}

impl PartialEqSpecImpl for XmlNamespace {
    open spec fn obeys_eq_spec() -> bool {
        true
    }

    open spec fn eq_spec(&self, other: &Self) -> bool {
        self@ == other@
    }
}

impl Eq for XmlNamespace {}

/// The bindings of a list with distinct prefixes, as a mapping, are exactly
/// the list: every prefix of the list is bound to its URI, and every prefix
/// bound comes from the list.  `to_xml_rs`, and so every start tag written,
/// hands `xml-rs` this mapping for the bindings of a namespace.
pub proof fn lemma_bindings_are_the_list(s: Seq<(Seq<char>, Seq<char>)>, handed: Map<Seq<char>, Seq<char>>)
    requires
        distinct_keys(s),
        handed == map_of(s),
    ensures
        forall|i: int|
            0 <= i < s.len() ==> handed.contains_key(#[trigger] s[i].0) && handed[s[i].0] == s[i].1,
        forall|k: Seq<char>| #[trigger] handed.contains_key(k) ==> exists|i: int| 0 <= i < s.len() && s[i].0 == k,
{
    assert forall|i: int| 0 <= i < s.len() implies handed.contains_key(#[trigger] s[i].0) && handed[s[i].0]
        == s[i].1 by {
        lemma_map_of_index(s, i);
    }
}

/// `put` reports a prefix as new only the first time: binding it again
/// returns `false`, and the later URI is the one kept.
pub proof fn lemma_put_twice(
    ns0: XmlNamespace,
    ns1: XmlNamespace,
    ns2: XmlNamespace,
    prefix: Seq<char>,
    first: Seq<char>,
    second: Seq<char>,
    second_new: bool,
)
    requires
        ns1@ == ns0@.insert(prefix, first),
        ns2@ == ns1@.insert(prefix, second),
        second_new == !ns1@.contains_key(prefix),
    ensures
        !second_new,
        ns2@ == ns0@.insert(prefix, second),
        ns2@[prefix] == second,
{
    assert(ns2@ =~= ns0@.insert(prefix, second));
}

/// After `extend`, a prefix that `other` binds maps to the URI of `other`;
/// every other prefix keeps the binding it had, if any.
pub proof fn lemma_extend_prefers_other(
    before: XmlNamespace,
    other: XmlNamespace,
    after: XmlNamespace,
    prefix: Seq<char>,
)
    requires
        after@ == before@.union_prefer_right(other@),
    ensures
        other@.contains_key(prefix) ==> after@.contains_key(prefix) && after@[prefix] == other@[prefix],
        !other@.contains_key(prefix) ==> (after@.contains_key(prefix) == before@.contains_key(prefix)
            && (before@.contains_key(prefix) ==> after@[prefix] == before@[prefix])),
{
}

/// Extending by a mapping with no bindings changes nothing, and extending by
/// the same mapping twice gives what extending once does.
pub proof fn lemma_extend_empty_and_idempotent(
    before: XmlNamespace,
    other: XmlNamespace,
    once: XmlNamespace,
    twice: XmlNamespace,
)
    requires
        once@ == before@.union_prefer_right(other@),
        twice@ == once@.union_prefer_right(other@),
    ensures
        other@ == Map::<Seq<char>, Seq<char>>::empty() ==> once@ == before@,
        twice@ == once@,
{
    assert(twice@ =~= once@);
    if other@ == Map::<Seq<char>, Seq<char>>::empty() {
        assert(once@ =~= before@);
    }
}

} // verus!
