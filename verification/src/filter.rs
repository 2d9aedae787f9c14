//! The illegal-sequence hard filter: a trie of forbidden character runs.

use vstd::prelude::*;
use crate::text::{chars_of, lowercase, lowercase_chars};

verus! {

/// `a` is a prefix of `b`.
pub open spec fn is_prefix(a: Seq<char>, b: Seq<char>) -> bool {
    a.len() <= b.len() && b.take(a.len() as int) == a
}

/// Some pattern of `patterns` occurs as a non-empty run of `s`.
pub open spec fn has_forbidden_run(patterns: Set<Seq<char>>, s: Seq<char>) -> bool {
    exists|start: int, end: int|
        0 <= start < end <= s.len() && #[trigger] patterns.contains(s.subrange(start, end))
}

/// The set of character sequences of the given strings.
pub open spec fn pattern_set(seqs: Seq<&str>) -> Set<Seq<char>> {
    Set::new(|p: Seq<char>| exists|i: int| 0 <= i < seqs.len() && p == (#[trigger] seqs[i])@)
}

/// The number of characters of all the given strings together.
pub open spec fn total_chars(seqs: Seq<&str>) -> nat
    decreases seqs.len(),
{
    if seqs.len() == 0 {
        0
    } else {
        total_chars(seqs.drop_last()) + seqs.last()@.len()
    }
}

proof fn lemma_total_chars_prefix(seqs: Seq<&str>, i: int)
    requires
        0 <= i <= seqs.len(),
    ensures
        total_chars(seqs.take(i)) <= total_chars(seqs),
    decreases seqs.len(),
{
    if i < seqs.len() {
        assert(seqs.drop_last().take(i) =~= seqs.take(i));
        lemma_total_chars_prefix(seqs.drop_last(), i);
    } else {
        assert(seqs.take(i) =~= seqs);
    }
}

/// `node_on_patterns` for a node of an earlier label sequence.
spec fn old_node_on(labels: Seq<Seq<char>>, j: int, pats: Set<Seq<char>>, upto: Seq<char>, k: int) -> bool {
    (exists|q: Seq<char>| pats.contains(q) && is_prefix(#[trigger] labels[j], q)) || (exists|n: int|
        1 <= n <= k && #[trigger] labels[j] == upto.take(n))
}

proof fn lemma_has_edge_grow(a: Seq<(usize, char, usize)>, b: Seq<(usize, char, usize)>, p: int, c: char)
    requires
        a.len() <= b.len(),
        b.take(a.len() as int) == a,
        has_edge(a, p, c),
    ensures
        has_edge(b, p, c),
{
    let e = choose|e: int| 0 <= e < a.len() && #[trigger] a[e].0 == p && a[e].1 == c;
    assert(b[e] == b.take(a.len() as int)[e]);
    assert(b[e].0 == p && b[e].1 == c);
}

/// There is an edge out of node `p` labelled `c`.
pub open spec fn has_edge(edges: Seq<(usize, char, usize)>, p: int, c: char) -> bool {
    exists|e: int| 0 <= e < edges.len() && #[trigger] edges[e].0 == p && edges[e].1 == c
}

/// A trie over the forbidden character runs; a text is rejected when one of
/// them occurs in its lowercase form.
///
/// Nodes are numbered from `0` (the root). `edges` holds `(parent, char, child)`
/// triples and `terminal[i]` says whether node `i` ends a pattern.
#[derive(Clone)]
pub struct HardFilterTrie {
    edges: Vec<(usize, char, usize)>,
    terminal: Vec<bool>,
    labels: Ghost<Seq<Seq<char>>>,
    patterns: Ghost<Set<Seq<char>>>,
}

impl View for HardFilterTrie {
    type V = Set<Seq<char>>;

    closed spec fn view(&self) -> Set<Seq<char>> {
        self.patterns@
    }
}

impl HardFilterTrie {
    /// Node `i` is reached from the root by the characters `labels[i]`.
    spec fn edges_follow_labels(&self) -> bool {
        forall|e: int|
            0 <= e < self.edges@.len() ==> {
                let (p, c, ch) = #[trigger] self.edges@[e];
                &&& p < self.labels@.len()
                &&& ch < self.labels@.len()
                &&& self.labels@[ch as int] == self.labels@[p as int].push(c)
            }
    }

    spec fn labels_distinct(&self) -> bool {
        forall|i: int, j: int|
            0 <= i < self.labels@.len() && 0 <= j < self.labels@.len() && i != j
                ==> #[trigger] self.labels@[i] != #[trigger] self.labels@[j]
    }

    /// Every prefix of a pattern can be followed one more character.
    spec fn patterns_complete(&self, pats: Set<Seq<char>>, upto: Seq<char>, k: int) -> bool {
        &&& forall|q: Seq<char>, i: int, n: int|
            pats.contains(q) && 0 <= i < self.labels@.len() && 0 <= n < q.len()
                && #[trigger] self.labels@[i] == q.take(n) ==> has_edge(self.edges@, i, #[trigger] q[n])
        &&& forall|i: int, n: int|
            0 <= i < self.labels@.len() && 0 <= n < k && #[trigger] self.labels@[i] == upto.take(n)
                ==> has_edge(self.edges@, i, #[trigger] upto[n])
    }

    /// Every node other than the root lies on a pattern, or on the first `k`
    /// characters of `upto`.
    spec fn labels_on_patterns(&self, pats: Set<Seq<char>>, upto: Seq<char>, k: int) -> bool {
        forall|j: int| 0 < j < self.labels@.len() ==> #[trigger] self.node_on_patterns(j, pats, upto, k)
    }

    spec fn node_on_patterns(&self, j: int, pats: Set<Seq<char>>, upto: Seq<char>, k: int) -> bool {
        (exists|q: Seq<char>| pats.contains(q) && is_prefix(#[trigger] self.labels@[j], q)) || (exists|n: int|
            1 <= n <= k && #[trigger] self.labels@[j] == upto.take(n))
    }

    spec fn shape(&self) -> bool {
        &&& self.terminal@.len() == self.labels@.len()
        &&& self.labels@.len() >= 1
        &&& self.labels@[0] == Seq::<char>::empty()
        &&& self.edges_follow_labels()
        &&& self.labels_distinct()
        &&& self.terminal@.len() < usize::MAX
    }

    /// The trie's invariant.
    pub closed spec fn wf(&self) -> bool {
        &&& self.shape()
        &&& self.patterns_complete(self.patterns@, Seq::<char>::empty(), 0)
        &&& self.labels_on_patterns(self.patterns@, Seq::<char>::empty(), 0)
        &&& forall|i: int|
            0 <= i < self.terminal@.len() ==> #[trigger] self.terminal@[i] == self.patterns@.contains(
                self.labels@[i],
            )
    }

    /// The child of `node` along `c`, if any.
    fn child(&self, node: usize, c: char) -> (r: Option<usize>)
        requires
            self.shape(),
            node < self.labels@.len(),
        ensures
            r matches Some(j) ==> j < self.labels@.len() && self.labels@[j as int] == self.labels@[node as int].push(c),
            r is Some <==> has_edge(self.edges@, node as int, c),
    {
        let mut e: usize = 0;
        while e < self.edges.len()
            invariant
                self.shape(),
                node < self.labels@.len(),
                e <= self.edges@.len(),
                forall|f: int| 0 <= f < e ==> !(#[trigger] self.edges@[f].0 == node && self.edges@[f].1 == c),
            decreases self.edges.len() - e,
        {
            let (p, ch, to) = self.edges[e];
            if p == node && ch == c {
                assert(self.edges@[e as int].0 == node && self.edges@[e as int].1 == c);
                return Some(to);
            }
            e = e + 1;
        }
        None
    }

    /// Adds the forbidden run `pattern`.
    fn insert(&mut self, pattern: &[char])
        requires
            old(self).wf(),
            old(self).terminal@.len() + pattern.len() < usize::MAX,
        ensures
            final(self).wf(),
            final(self)@ == old(self)@.insert(pattern@),
            final(self).terminal@.len() <= old(self).terminal@.len() + pattern.len(),
    {
        let ghost pats = self.patterns@;
        let ghost p = pattern@;
        let mut cur: usize = 0;
        let mut k: usize = 0;
        assert(p.take(0) =~= Seq::<char>::empty());
        assert(self.wf());
        assert(self.labels_on_patterns(pats, Seq::<char>::empty(), 0));
        assert forall|j: int| 0 < j < self.labels@.len() implies #[trigger] self.node_on_patterns(j, pats, p, 0) by {
            assert(self.node_on_patterns(j, pats, Seq::<char>::empty(), 0));
        }
        while k < pattern.len()
            invariant
                self.shape(),
                self.patterns@ == pats,
                self.patterns_complete(pats, p, k as int),
                self.labels_on_patterns(pats, p, k as int),
                forall|i: int|
                    0 <= i < self.terminal@.len() ==> #[trigger] self.terminal@[i] == pats.contains(
                        self.labels@[i],
                    ),
                k <= pattern.len(),
                p == pattern@,
                cur < self.labels@.len(),
                self.labels@[cur as int] == p.take(k as int),
                self.terminal@.len() <= old(self).terminal@.len() + k,
                old(self).terminal@.len() + pattern.len() < usize::MAX,
            decreases pattern.len() - k,
        {
            let c = pattern[k];
            let ghost edges0 = self.edges@;
            let ghost labels0 = self.labels@;
            let ghost cur0 = cur as int;
            assert forall|j: int| 0 < j < labels0.len() implies #[trigger] old_node_on(labels0, j, pats, p, k as int) by {
                assert(self.node_on_patterns(j, pats, p, k as int));
            }
            assert(p.take(k + 1) =~= p.take(k as int).push(c));
            match self.child(cur, c) {
                Some(j) => {
                    cur = j;
                },
                None => {
                    let j = self.terminal.len();
                    let ghost new_label = self.labels@[cur as int].push(c);
                    proof {
                        if pats.contains(new_label) {
                            let n = self.labels@[cur as int].len() as int;
                            assert(new_label.take(n) =~= self.labels@[cur as int]);
                            assert(has_edge(self.edges@, cur as int, new_label[n]));
                        }
                        // no node carries the new label yet
                        assert forall|i: int| 0 <= i < self.labels@.len() implies #[trigger] self.labels@[i] != new_label by {
                            if self.labels@[i] == new_label {
                                assert(i != 0);
                                assert(self.node_on_patterns(i, pats, p, k as int));
                                if exists|n: int| 1 <= n <= k && #[trigger] self.labels@[i] == p.take(n) {
                                    let n = choose|n: int| 1 <= n <= k && #[trigger] self.labels@[i] == p.take(n);
                                    assert(self.labels@[i].len() == n);
                                } else {
                                    let q = choose|q: Seq<char>| pats.contains(q) && is_prefix(#[trigger] self.labels@[i], q);
                                    let n = self.labels@[cur as int].len() as int;
                                    assert(q.take(n) =~= self.labels@[cur as int]);
                                    assert(q[n] == new_label[n]);
                                }
                            }
                        }
                    }
                    self.terminal.push(false);
                    self.labels = Ghost(self.labels@.push(new_label));
                    self.edges.push((cur, c, j));
                    proof {
                        let l = self.labels@;
                        assert(l[j as int] == new_label);
                        assert forall|i: int| 0 <= i < self.terminal@.len() implies #[trigger] self.terminal@[i]
                            == pats.contains(l[i]) by {
                            if i < j {
                                assert(l[i] == labels0[i]);
                            }
                        }
                        assert forall|e: int| 0 <= e < self.edges@.len() implies {
                            let (a, b, d) = #[trigger] self.edges@[e];
                            &&& a < l.len()
                            &&& d < l.len()
                            &&& l[d as int] == l[a as int].push(b)
                        } by {
                            if e < self.edges@.len() - 1 {
                                assert(self.edges@[e] == edges0[e]);
                            }
                        }
                    }
                    cur = j;
                },
            }
            proof {
                let l = self.labels@;
                let ed = self.edges@;
                assert(l.take(labels0.len() as int) =~= labels0);
                assert(ed.take(edges0.len() as int) =~= edges0);
                assert(has_edge(ed, cur0, c)) by {
                    if !has_edge(edges0, cur0, c) {
                        assert(ed[ed.len() - 1].0 == cur0 && ed[ed.len() - 1].1 == c);
                    } else {
                        lemma_has_edge_grow(edges0, ed, cur0, c);
                    }
                }
                assert forall|q: Seq<char>, i: int, n: int|
                    pats.contains(q) && 0 <= i < l.len() && 0 <= n < q.len()
                        && #[trigger] l[i] == q.take(n) implies has_edge(ed, i, #[trigger] q[n]) by {
                    if i < labels0.len() {
                        assert(labels0[i] == l[i]);
                        assert(has_edge(edges0, i, q[n]));
                        lemma_has_edge_grow(edges0, ed, i, q[n]);
                    } else {
                        assert(l[i] == l[cur0].push(c));
                        let m = n - 1;
                        assert(q.take(m) =~= labels0[cur0]);
                        assert(q.take(n)[m] == q[m]);
                        assert(l[i][m] == c);
                        assert(q[m] == c);
                        assert(has_edge(edges0, cur0, c));
                        assert(false);
                    }
                }
                assert forall|i: int, n: int|
                    0 <= i < l.len() && 0 <= n < k + 1 && #[trigger] l[i] == p.take(n)
                        implies has_edge(ed, i, #[trigger] p[n]) by {
                    if n == k {
                        assert(l[i] == l[cur0]);
                    } else if i < labels0.len() {
                        assert(labels0[i] == l[i]);
                        assert(has_edge(edges0, i, p[n]));
                        lemma_has_edge_grow(edges0, ed, i, p[n]);
                    } else {
                        assert(l[i].len() == k + 1);
                        assert(p.take(n).len() == n);
                    }
                }
                assert forall|j: int| 0 < j < l.len() implies #[trigger] self.node_on_patterns(j, pats, p, k + 1) by {
                    if j < labels0.len() {
                        assert(labels0[j] == l[j]);
                        assert(old_node_on(labels0, j, pats, p, k as int));
                        if exists|n: int| 1 <= n <= k && #[trigger] labels0[j] == p.take(n) {
                            let n = choose|n: int| 1 <= n <= k && #[trigger] labels0[j] == p.take(n);
                            assert(l[j] == p.take(n));
                        } else {
                            let q = choose|q: Seq<char>| pats.contains(q) && is_prefix(#[trigger] labels0[j], q);
                            assert(is_prefix(l[j], q));
                        }
                    } else {
                        assert(l[j] == p.take(k + 1));
                    }
                }
            }
            k = k + 1;
        }
        assert(p.take(pattern.len() as int) =~= p);
        assert forall|j: int| 0 < j < self.labels@.len() implies #[trigger] old_node_on(self.labels@, j, pats, p, k as int) by {
            assert(self.node_on_patterns(j, pats, p, k as int));
        }
        self.terminal.set(cur, true);
        self.patterns = Ghost(pats.insert(p));
        proof {
            assert(self.patterns@.contains(p));
            assert forall|j: int| 0 < j < self.labels@.len() implies #[trigger] self.node_on_patterns(j, self.patterns@, Seq::<char>::empty(), 0) by {
                assert(old_node_on(self.labels@, j, pats, p, k as int));
                if exists|n: int| 1 <= n <= k && #[trigger] self.labels@[j] == p.take(n) {
                    let n = choose|n: int| 1 <= n <= k && #[trigger] self.labels@[j] == p.take(n);
                    assert(is_prefix(self.labels@[j], p));
                } else {
                    let q = choose|q: Seq<char>| pats.contains(q) && is_prefix(#[trigger] self.labels@[j], q);
                    assert(self.patterns@.contains(q));
                }
            }
            assert forall|q: Seq<char>, i: int, n: int|
                self.patterns@.contains(q) && 0 <= i < self.labels@.len() && 0 <= n < q.len()
                    && #[trigger] self.labels@[i] == q.take(n) implies has_edge(self.edges@, i, #[trigger] q[n]) by {
                if q == p {
                } else {
                    assert(pats.contains(q));
                }
            }
            assert forall|i: int| 0 <= i < self.terminal@.len() implies #[trigger] self.terminal@[i]
                == self.patterns@.contains(self.labels@[i]) by {
                if i != cur {
                    assert(self.labels@[i] != self.labels@[cur as int]);
                }
            }
        }
    }

    /// A trie rejecting every text in which one of `illegal_sequences` occurs.
    pub fn new(illegal_sequences: &[&str]) -> (t: Self)
        requires
            total_chars(illegal_sequences@) + 1 < usize::MAX,
        ensures
            t.wf(),
            t@ == pattern_set(illegal_sequences@),
    {
        let mut terminal: Vec<bool> = Vec::new();
        terminal.push(false);
        let ghost root_labels: Seq<Seq<char>> = seq![Seq::<char>::empty()];
        let mut trie = Self {
            edges: Vec::new(),
            terminal,
            labels: Ghost(root_labels),
            patterns: Ghost(Set::empty()),
        };
        assert(trie@ =~= Set::new(|p: Seq<char>| exists|m: int| 0 <= m < 0 && p == (#[trigger] illegal_sequences@[m])@));
        let mut i: usize = 0;
        while i < illegal_sequences.len()
            invariant
                trie.wf(),
                i <= illegal_sequences@.len(),
                trie.terminal@.len() <= 1 + total_chars(illegal_sequences@.take(i as int)),
                total_chars(illegal_sequences@) + 1 < usize::MAX,
                trie@ == Set::new(|p: Seq<char>| exists|m: int| 0 <= m < i && p == (#[trigger] illegal_sequences@[m])@),
            decreases illegal_sequences.len() - i,
        {
            let pattern = chars_of(illegal_sequences[i]);
            proof {
                assert(illegal_sequences@.take(i + 1).drop_last() =~= illegal_sequences@.take(i as int));
                lemma_total_chars_prefix(illegal_sequences@, i + 1);
            }
            trie.insert(&pattern);
            i = i + 1;
            assert(trie@ =~= Set::new(|p: Seq<char>| exists|m: int| 0 <= m < i && p == (#[trigger] illegal_sequences@[m])@)) by {
                assert forall|p: Seq<char>| trie@.contains(p) implies exists|m: int| 0 <= m < i && p == (#[trigger] illegal_sequences@[m])@ by {
                    if p == pattern@ {
                        assert(p == illegal_sequences@[i - 1]@);
                    }
                }
            }
        }
        assert(trie@ =~= pattern_set(illegal_sequences@));
        trie
    }
}

impl HardFilterTrie {
    /// Whether one of the forbidden runs occurs in the lowercase form of `text`.
    pub fn rejects(&self, text: &str) -> (r: bool)
        requires
            self.wf(),
        ensures
            r == has_forbidden_run(self@, lowercase(text@)),
    {
        let lowered = lowercase_chars(text);
        let n = lowered.len();
        let ghost s = lowered@;
        let mut start: usize = 0;
        while start < n
            invariant
                self.wf(),
                n == s.len(),
                s == lowered@,
                s == lowercase(text@),
                start <= n,
                forall|st: int, e: int| 0 <= st < start && st < e <= n ==> !self@.contains(#[trigger] s.subrange(st, e)),
            decreases n - start,
        {
            let mut node: usize = 0;
            let mut idx: usize = start;
            assert(s.subrange(start as int, start as int) =~= Seq::<char>::empty());
            loop
                invariant
                    self.wf(),
                    n == s.len(),
                    s == lowered@,
                    s == lowercase(text@),
                    start < n,
                    start <= idx <= n,
                    node < self.labels@.len(),
                    self.labels@[node as int] == s.subrange(start as int, idx as int),
                    forall|e: int| start < e <= idx ==> !self@.contains(#[trigger] s.subrange(start as int, e)),
                ensures
                    forall|e: int| start < e <= n ==> !self@.contains(#[trigger] s.subrange(start as int, e)),
                decreases n - idx,
            {
                if idx == n {
                    break;
                }
                let c = lowered[idx];
                match self.child(node, c) {
                    None => {
                        assert forall|e: int| start < e <= n implies !self@.contains(#[trigger] s.subrange(start as int, e)) by {
                            if e > idx && self@.contains(s.subrange(start as int, e)) {
                                let q = s.subrange(start as int, e);
                                let m = idx - start;
                                assert(q.take(m) =~= s.subrange(start as int, idx as int));
                                assert(q[m] == c);
                                assert(has_edge(self.edges@, node as int, q[m]));
                            }
                        }
                        break;
                    },
                    Some(j) => {
                        assert(s.subrange(start as int, idx + 1) =~= s.subrange(start as int, idx as int).push(c));
                        node = j;
                        idx = idx + 1;
                        if self.terminal[j] {
                            assert(self@.contains(s.subrange(start as int, idx as int)));
                            assert(has_forbidden_run(self@, s));
                            return true;
                        }
                    },
                }
            }
            start = start + 1;
        }
        false
    }
}

} // verus!
