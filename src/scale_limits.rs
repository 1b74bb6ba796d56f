use vstd::prelude::*;

use crate::json::{children, deref_opt, field_of, size_of, size_of_selected, spread, Json};
use crate::text::texts;

verus! {

/// A scale factor of 1.0, in billionths: rates and factors are counted in this unit.
pub const SCALE_UNIT: u64 = 1_000_000_000;

/// The least scale factor (1.0): the analysis never lowers the base limits.
pub const MIN_SCALE_FACTOR: u64 = 1_000_000_000;

/// The greatest scale factor (10.0).
pub const MAX_SCALE_FACTOR: u64 = 10_000_000_000;

/// What the analysis knows at a point of the traversal.
pub struct AnalysisState {
    /// For each enclosing field, the input values it selected; the root first.
    pub values: Seq<Seq<Json>>,
    /// The response keys from the root to the current field.
    pub path: Seq<Seq<char>>,
    /// For each path that carries a rate, the contribution recorded for each parent index.
    pub groups: Seq<(Seq<Seq<char>>, Seq<int>)>,
}

impl AnalysisState {
    /// One level of values for the root and one for each field entered.
    pub open spec fn wf(self) -> bool {
        self.values.len() == self.path.len() + 1
    }
}

/// The state before any field is entered.
pub open spec fn initial(input: Json) -> AnalysisState {
    AnalysisState { values: seq![seq![input]], path: Seq::empty(), groups: Seq::empty() }
}

/// The element `i` of `s`, or zero past its end.
pub open spec fn at(s: Seq<int>, i: int) -> int {
    if 0 <= i < s.len() {
        s[i]
    } else {
        0
    }
}

/// Two records of one path merged index by index, keeping the larger contribution.
pub open spec fn merge(old: Seq<int>, c: Seq<int>) -> Seq<int> {
    Seq::new(
        if old.len() >= c.len() {
            old.len()
        } else {
            c.len()
        },
        |i: int|
            if at(old, i) >= at(c, i) {
                at(old, i)
            } else {
                at(c, i)
            },
    )
}

/// The contribution of each parent when field `k` carries `rate`: the size
/// of what the field selects in it, times the rate.
pub open spec fn contributions(parents: Seq<Json>, k: Seq<char>, rate: int) -> Seq<int> {
    Seq::new(parents.len(), |i: int| size_of(field_of(parents[i], k)) * rate)
}

/// The index of the first group recorded for path `p` at or after `j`,
/// or the number of groups when there is none.
pub open spec fn find_group(groups: Seq<(Seq<Seq<char>>, Seq<int>)>, p: Seq<Seq<char>>, j: int) -> int
    decreases groups.len() - j,
{
    if j < 0 || j >= groups.len() {
        groups.len() as int
    } else if groups[j].0 == p {
        j
    } else {
        find_group(groups, p, j + 1)
    }
}

/// The groups after recording contributions `c` for path `p`.
pub open spec fn upsert(groups: Seq<(Seq<Seq<char>>, Seq<int>)>, p: Seq<Seq<char>>, c: Seq<int>) -> Seq<
    (Seq<Seq<char>>, Seq<int>),
> {
    let j = find_group(groups, p, 0);
    if j < groups.len() {
        groups.update(j, (p, merge(groups[j].1, c)))
    } else {
        groups.push((p, c))
    }
}

/// Entering field `k`, whose definition carries `rate` (in billionths) if any.
pub open spec fn visit(s: AnalysisState, k: Seq<char>, rate: Option<u64>) -> AnalysisState {
    let parents = s.values.last();
    let path = s.path.push(k);
    AnalysisState {
        values: s.values.push(children(parents, k)),
        path: path,
        groups: match rate {
            Some(r) => upsert(s.groups, path, contributions(parents, k, r as int)),
            None => s.groups,
        },
    }
}

/// Leaving the current field.
pub open spec fn leave(s: AnalysisState) -> AnalysisState {
    AnalysisState { values: s.values.drop_last(), path: s.path.drop_last(), groups: s.groups }
}

/// The sum of `s`.
pub open spec fn seq_sum(s: Seq<int>) -> int
    decreases s.len(),
{
    if s.len() == 0 {
        0
    } else {
        seq_sum(s.drop_last()) + s.last()
    }
}

/// The largest per-path sum of contributions, and at least the least scale factor.
pub open spec fn largest_sum(groups: Seq<(Seq<Seq<char>>, Seq<int>)>) -> int
    decreases groups.len(),
{
    if groups.len() == 0 {
        MIN_SCALE_FACTOR as int
    } else {
        let rest = largest_sum(groups.drop_last());
        let s = seq_sum(groups.last().1);
        if rest >= s {
            rest
        } else {
            s
        }
    }
}

/// The scale factor of the recorded groups, in billionths: the largest per-path
/// sum, clamped to the least and greatest scale factors.
pub open spec fn scale_factor(groups: Seq<(Seq<Seq<char>>, Seq<int>)>) -> int {
    let l = largest_sum(groups);
    if l <= MAX_SCALE_FACTOR as int {
        l
    } else {
        MAX_SCALE_FACTOR as int
    }
}

/// Contributions recorded for one query path, one per parent index.
pub struct RateGroup {
    path: Vec<String>,
    per_parent: Vec<u128>,
}

/// Recorded amounts as integers.
pub open spec fn amounts_view(a: Seq<u128>) -> Seq<int> {
    a.map_values(|x: u128| x as int)
}

/// A level of selected values, read through the references.
pub open spec fn level_view(l: Seq<&Json>) -> Seq<Json> {
    l.map_values(|r: &Json| *r)
}

impl RateGroup {
    /// The group's path and amounts.
    pub closed spec fn view_pair(self) -> (Seq<Seq<char>>, Seq<int>) {
        (texts(self.path@), amounts_view(self.per_parent@))
    }
}

/// The groups as paths with amounts.
pub open spec fn groups_view(g: Seq<RateGroup>) -> Seq<(Seq<Seq<char>>, Seq<int>)> {
    g.map_values(|x: RateGroup| x.view_pair())
}

/// The scale-limits analysis: it follows a typed traversal of a query over the
/// input document, field by field, and derives a bounded scale factor.
pub struct ScaleLimits<'a> {
    value_stack: Vec<Vec<&'a Json>>,
    path_stack: Vec<String>,
    rates: Vec<RateGroup>,
}

impl<'a> View for ScaleLimits<'a> {
    type V = AnalysisState;

    closed spec fn view(&self) -> AnalysisState {
        AnalysisState {
            values: self.value_stack@.map_values(|l: Vec<&Json>| level_view(l@)),
            path: texts(self.path_stack@),
            groups: groups_view(self.rates@),
        }
    }
}

/// Whether two paths hold the same keys.
fn same_path(a: &Vec<String>, b: &Vec<String>) -> (r: bool)
    ensures
        r == (texts(a@) == texts(b@)),
{
    if a.len() != b.len() {
        assert(texts(a@).len() != texts(b@).len());
        return false;
    }
    let mut i: usize = 0;
    while i < a.len()
        invariant
            a.len() == b.len(),
            i <= a.len(),
            forall|l: int| 0 <= l < i ==> a@[l]@ == b@[l]@,
        decreases a.len() - i,
    {
        if a[i] != b[i] {
            assert(texts(a@)[i as int] != texts(b@)[i as int]);
            return false;
        }
        i = i + 1;
    }
    assert(texts(a@) =~= texts(b@));
    true
}

/// Merge `c` into `old`, index by index, keeping the larger amount.
fn merge_amounts(old: &Vec<u128>, c: &Vec<u128>) -> (r: Vec<u128>)
    ensures
        amounts_view(r@) == merge(amounts_view(old@), amounts_view(c@)),
{
    let n = if old.len() >= c.len() {
        old.len()
    } else {
        c.len()
    };
    let mut r: Vec<u128> = Vec::new();
    let mut i: usize = 0;
    while i < n
        invariant
            i <= n,
            n == (if old.len() >= c.len() { old.len() } else { c.len() }),
            r@.len() == i,
            forall|l: int|
                0 <= l < i ==> r@[l] as int == merge(amounts_view(old@), amounts_view(c@))[l],
        decreases n - i,
    {
        let a: u128 = if i < old.len() {
            old[i]
        } else {
            0
        };
        let b: u128 = if i < c.len() {
            c[i]
        } else {
            0
        };
        r.push(
            if a >= b {
                a
            } else {
                b
            },
        );
        i = i + 1;
    }
    assert(amounts_view(r@) =~= merge(amounts_view(old@), amounts_view(c@)));
    r
}

/// Record contributions `c` for path `p`.
fn record(groups: &mut Vec<RateGroup>, p: Vec<String>, c: Vec<u128>)
    ensures
        groups_view(final(groups)@) == upsert(
            groups_view(old(groups)@),
            texts(p@),
            amounts_view(c@),
        ),
{
    let ghost gv = groups_view(groups@);
    let ghost pv = texts(p@);
    let mut j: usize = 0;
    let mut found = false;
    while j < groups.len() && !found
        invariant
            j <= groups.len(),
            gv == groups_view(groups@),
            pv == texts(p@),
            found ==> j < groups.len() && gv[j as int].0 == pv && find_group(gv, pv, 0) == j,
            !found ==> find_group(gv, pv, 0) == find_group(gv, pv, j as int),
        decreases groups.len() - j + (if found { 0int } else { 1int }),
    {
        if same_path(&groups[j].path, &p) {
            found = true;
        } else {
            j = j + 1;
        }
    }
    if found {
        let merged = merge_amounts(&groups[j].per_parent, &c);
        assert(gv[j as int].1 == amounts_view(groups@[j as int].per_parent@));
        let g = RateGroup { path: p, per_parent: merged };
        assert(g.view_pair() == (pv, merge(gv[j as int].1, amounts_view(c@))));
        groups.set(j, g);
        assert(groups_view(groups@) =~= upsert(gv, pv, amounts_view(c@)));
    } else {
        groups.push(RateGroup { path: p, per_parent: c });
        assert(groups_view(groups@) =~= upsert(gv, pv, amounts_view(c@)));
    }
}

fn copy_path(p: &Vec<String>) -> (r: Vec<String>)
    ensures
        texts(r@) == texts(p@),
{
    let mut r: Vec<String> = Vec::new();
    let mut i: usize = 0;
    while i < p.len()
        invariant
            i <= p.len(),
            r@.len() == i,
            forall|l: int| 0 <= l < i ==> r@[l]@ == p@[l]@,
        decreases p.len() - i,
    {
        r.push(p[i].clone());
        i = i + 1;
    }
    assert(texts(r@) =~= texts(p@));
    r
}

impl<'a> ScaleLimits<'a> {
    /// An analysis of `input`, before any field is entered.
    pub fn new(input: &'a Json) -> (r: ScaleLimits<'a>)
        ensures
            r@ == initial(*input),
            r@.wf(),
    {
        let mut root: Vec<&'a Json> = Vec::new();
        root.push(input);
        let mut value_stack: Vec<Vec<&'a Json>> = Vec::new();
        value_stack.push(root);
        let r = ScaleLimits { value_stack, path_stack: Vec::new(), rates: Vec::new() };
        assert(level_view(r.value_stack@[0]@) =~= seq![*input]);
        assert(r@.values =~= seq![seq![*input]]);
        assert(r@.path =~= Seq::<Seq<char>>::empty());
        assert(r@.groups =~= Seq::<(Seq<Seq<char>>, Seq<int>)>::empty());
        r
    }

    /// How many fields enclose the current position.
    pub fn depth(&self) -> (r: usize)
        requires
            self@.wf(),
        ensures
            r == self@.path.len(),
    {
        self.path_stack.len()
    }

    /// Enter the field with response key `key`; `rate` is the rate (in billionths)
    /// that the field's definition carries, if any.
    pub fn visit_field(&mut self, key: String, rate: Option<u64>)
        requires
            old(self)@.wf(),
        ensures
            final(self)@ == visit(old(self)@, key@, rate),
            final(self)@.wf(),
    {
        let ghost s = self@;
        let top = self.value_stack.len() - 1;
        let parents: &Vec<&'a Json> = &self.value_stack[top];
        let ghost pv = level_view(parents@);
        assert(pv == s.values.last());
        let mut nested: Vec<&'a Json> = Vec::new();
        let mut amounts: Vec<u128> = Vec::new();
        let mut i: usize = 0;
        while i < parents.len()
            invariant
                i <= parents.len(),
                pv == level_view(parents@),
                level_view(nested@) == children(pv.take(i as int), key@),
                rate is Some ==> amounts_view(amounts@) == contributions(
                    pv.take(i as int),
                    key@,
                    rate->0 as int,
                ),
            decreases parents.len() - i,
        {
            let v: &'a Json = parents[i];
            let child = v.field(&key);
            assert(pv.take(i + 1).drop_last() =~= pv.take(i as int));
            assert(pv.take(i + 1).last() == *v);
            if let Some(r) = rate {
                let size = size_of_selected(child);
                assert(size as int == size_of(field_of(pv[i as int], key@)));
                assert((size as u128) * (r as u128) <= u128::MAX) by (nonlinear_arith)
                    requires
                        size <= usize::MAX,
                        r <= u64::MAX,
                ;
                let ghost prev = amounts_view(amounts@);
                assert(prev == contributions(pv.take(i as int), key@, r as int));
                amounts.push((size as u128) * (r as u128));
                assert(amounts_view(amounts@) =~= prev.push(size as int * r as int));
                assert(amounts_view(amounts@) =~= contributions(
                    pv.take(i + 1),
                    key@,
                    r as int,
                ));
            }
            let ghost before = level_view(nested@);
            match child {
                Some(Json::Array(items)) => {
                    let mut j: usize = 0;
                    while j < items.len()
                        invariant
                            j <= items.len(),
                            level_view(nested@) == before + items@.take(j as int),
                        decreases items.len() - j,
                    {
                        let item: &'a Json = &items[j];
                        assert(items@.take(j + 1) =~= items@.take(j as int).push(*item));
                        let ghost old_nested = nested@;
                        nested.push(item);
                        assert(nested@ == old_nested.push(item));
                        assert(level_view(nested@) =~= level_view(old_nested).push(*item));
                        assert(level_view(nested@) =~= before + items@.take(j + 1));
                        j = j + 1;
                    }
                    assert(items@.take(items.len() as int) =~= items@);
                },
                Some(c) => {
                    nested.push(c);
                    assert(level_view(nested@) =~= before + seq![*c]);
                },
                None => {},
            }
            assert(level_view(nested@) =~= before + spread(deref_opt(child)));
            i = i + 1;
        }
        assert(pv.take(parents.len() as int) =~= pv);
        self.path_stack.push(key);
        if let Some(r) = rate {
            let p = copy_path(&self.path_stack);
            record(&mut self.rates, p, amounts);
        }
        self.value_stack.push(nested);
        assert(self@.values =~= visit(s, key@, rate).values);
        assert(self@.path =~= visit(s, key@, rate).path);
    }

    /// Leave the current field.
    pub fn leave_field(&mut self)
        requires
            old(self)@.wf(),
            old(self)@.path.len() > 0,
        ensures
            final(self)@ == leave(old(self)@),
            final(self)@.wf(),
    {
        let ghost s = self@;
        self.path_stack.pop();
        self.value_stack.pop();
        assert(self@.values =~= leave(s).values);
        assert(self@.path =~= leave(s).path);
    }

    /// The scale factor, in billionths: the largest per-path sum of the
    /// recorded contributions, clamped to `[MIN_SCALE_FACTOR, MAX_SCALE_FACTOR]`.
    pub fn into_output(self) -> (r: u64)
        ensures
            r == scale_factor(self@.groups),
            MIN_SCALE_FACTOR <= r <= MAX_SCALE_FACTOR,
    {
        let ghost g = self@.groups;
        let mut best: u128 = MIN_SCALE_FACTOR as u128;
        let mut j: usize = 0;
        while j < self.rates.len()
            invariant
                j <= self.rates.len(),
                g == groups_view(self.rates@),
                best == capped(largest_sum(g.take(j as int))),
            decreases self.rates.len() - j,
        {
            let amounts = &self.rates[j].per_parent;
            let ghost av = amounts_view(amounts@);
            assert(av == g[j as int].1);
            let mut total: u128 = 0;
            let mut i: usize = 0;
            while i < amounts.len()
                invariant
                    i <= amounts.len(),
                    av == amounts_view(amounts@),
                    total == capped(seq_sum(av.take(i as int))),
                decreases amounts.len() - i,
            {
                assert(av.take(i + 1).drop_last() =~= av.take(i as int));
                proof {
                    lemma_capped_add(seq_sum(av.take(i as int)), amounts@[i as int] as int);
                }
                let x = amounts[i];
                total = if x >= MAX_SCALE_FACTOR as u128 - total {
                    MAX_SCALE_FACTOR as u128
                } else {
                    total + x
                };
                i = i + 1;
            }
            assert(av.take(amounts.len() as int) =~= av);
            assert(g.take(j + 1).drop_last() =~= g.take(j as int));
            proof {
                lemma_largest_sum_at_least_min(g.take(j as int));
            }
            if total > best {
                best = total;
            }
            j = j + 1;
        }
        assert(g.take(self.rates.len() as int) =~= g);
        proof {
            lemma_largest_sum_at_least_min(g);
        }
        best as u64
    }
}

/// `x` capped at the greatest scale factor.
pub open spec fn capped(x: int) -> int {
    if x >= MAX_SCALE_FACTOR as int {
        MAX_SCALE_FACTOR as int
    } else {
        x
    }
}

proof fn lemma_capped_add(s: int, x: int)
    requires
        x >= 0,
    ensures
        capped(capped(s) + x) == capped(s + x),
{
}

proof fn lemma_largest_sum_at_least_min(g: Seq<(Seq<Seq<char>>, Seq<int>)>)
    ensures
        largest_sum(g) >= MIN_SCALE_FACTOR as int,
    decreases g.len(),
{
    if g.len() > 0 {
        lemma_largest_sum_at_least_min(g.drop_last());
    }
}

proof fn lemma_find_group_props(g: Seq<(Seq<Seq<char>>, Seq<int>)>, p: Seq<Seq<char>>, i: int)
    requires
        0 <= i <= g.len(),
    ensures
        i <= find_group(g, p, i) <= g.len(),
        find_group(g, p, i) < g.len() ==> g[find_group(g, p, i)].0 == p,
        forall|l: int| i <= l < find_group(g, p, i) ==> g[l].0 != p,
    decreases g.len() - i,
{
    if i < g.len() && g[i].0 != p {
        lemma_find_group_props(g, p, i + 1);
    }
}

proof fn lemma_find_group_is(g: Seq<(Seq<Seq<char>>, Seq<int>)>, p: Seq<Seq<char>>, i: int, j: int)
    requires
        0 <= i <= j < g.len(),
        g[j].0 == p,
        forall|l: int| i <= l < j ==> g[l].0 != p,
    ensures
        find_group(g, p, i) == j,
    decreases j - i,
{
    if i < j {
        lemma_find_group_is(g, p, i + 1, j);
    }
}

proof fn lemma_merge_idempotent(a: Seq<int>, c: Seq<int>)
    ensures
        merge(merge(a, c), c) == merge(a, c),
        merge(c, c) == c,
{
    assert(merge(merge(a, c), c) =~= merge(a, c));
    assert(merge(c, c) =~= c);
}

proof fn lemma_upsert_idempotent(g: Seq<(Seq<Seq<char>>, Seq<int>)>, p: Seq<Seq<char>>, c: Seq<int>)
    ensures
        upsert(upsert(g, p, c), p, c) == upsert(g, p, c),
{
    lemma_find_group_props(g, p, 0);
    let j = find_group(g, p, 0);
    let g1 = upsert(g, p, c);
    lemma_merge_idempotent(if j < g.len() { g[j].1 } else { c }, c);
    if j < g.len() {
        lemma_find_group_is(g1, p, 0, j);
        assert(upsert(g1, p, c) =~= g1);
    } else {
        lemma_find_group_is(g1, p, 0, g.len() as int);
        assert(upsert(g1, p, c) =~= g1);
    }
}

/// Selecting the same field twice in one selection set (`{ f f }`) records
/// exactly what selecting it once does: for each parent index the larger
/// contribution is kept, and both selections contribute the same amounts.
pub proof fn lemma_duplicate_field_idempotent(s: AnalysisState, k: Seq<char>, rate: Option<u64>)
    requires
        s.wf(),
    ensures
        leave(visit(leave(visit(s, k, rate)), k, rate)) == leave(visit(s, k, rate)),
        scale_factor(leave(visit(leave(visit(s, k, rate)), k, rate)).groups) == scale_factor(
            leave(visit(s, k, rate)).groups,
        ),
{
    let s1 = leave(visit(s, k, rate));
    assert(s1.values =~= s.values);
    assert(s1.path =~= s.path);
    if let Some(r) = rate {
        lemma_upsert_idempotent(
            s.groups,
            s.path.push(k),
            contributions(s.values.last(), k, r as int),
        );
    }
    assert(leave(visit(s1, k, rate)).values =~= s1.values);
    assert(leave(visit(s1, k, rate)).path =~= s1.path);
}

proof fn lemma_sum_constant(s: Seq<int>, x: int)
    requires
        forall|i: int| 0 <= i < s.len() ==> s[i] == x,
    ensures
        seq_sum(s) == s.len() * x,
    decreases s.len(),
{
    if s.len() > 0 {
        lemma_sum_constant(s.drop_last(), x);
        assert(s.len() * x == (s.len() - 1) * x + x) by (nonlinear_arith);
    }
}

proof fn lemma_largest_sum_covers(g: Seq<(Seq<Seq<char>>, Seq<int>)>, j: int)
    requires
        0 <= j < g.len(),
    ensures
        largest_sum(g) >= seq_sum(g[j].1),
    decreases g.len(),
{
    if j < g.len() - 1 {
        lemma_largest_sum_covers(g.drop_last(), j);
    }
}

/// Cost accumulates along a path: when each of the `n` parents in scope
/// selects `m` units (an array of `m` elements, or a string of `m` bytes) for
/// a field carrying rate `r`, and what was recorded for that path before (if
/// anything, as by an earlier selection of the same field) is no larger per
/// parent, the path's recorded sum is `n * m * r`, and the scale factor is at
/// least that sum once capped.
pub proof fn lemma_cumulative_per_path(s: AnalysisState, k: Seq<char>, r: u64, m: nat)
    requires
        s.wf(),
        forall|i: int| 0 <= i < s.values.last().len() ==> size_of(field_of(s.values.last()[i], k)) == m,
        find_group(s.groups, s.path.push(k), 0) < s.groups.len() ==> {
            let old = s.groups[find_group(s.groups, s.path.push(k), 0)].1;
            old.len() <= s.values.last().len() && forall|i: int| 0 <= i < old.len() ==> old[i] <= m * r
        },
    ensures
        ({
            let j = find_group(s.groups, s.path.push(k), 0);
            let g = visit(s, k, Some(r)).groups;
            &&& 0 <= j < g.len()
            &&& g[j].0 == s.path.push(k)
            &&& seq_sum(g[j].1) == s.values.last().len() * m * r
            &&& scale_factor(g) >= capped(s.values.last().len() * m * r)
        }),
{
    let p = s.path.push(k);
    let parents = s.values.last();
    let n = parents.len();
    let c = contributions(parents, k, r as int);
    lemma_find_group_props(s.groups, p, 0);
    let j = find_group(s.groups, p, 0);
    let g = visit(s, k, Some(r)).groups;
    let stored = if j < s.groups.len() {
        let merged = merge(s.groups[j].1, c);
        assert(merged =~= c);
        merged
    } else {
        c
    };
    assert(g[j] == (p, stored));
    lemma_sum_constant(c, (m * r) as int);
    assert(n * (m * r) == n * m * r) by (nonlinear_arith);
    lemma_largest_sum_covers(g, j);
}

/// `x` clamped to the least and greatest scale factors.
pub open spec fn clamped(x: int) -> int {
    if x < MIN_SCALE_FACTOR as int {
        MIN_SCALE_FACTOR as int
    } else if x > MAX_SCALE_FACTOR as int {
        MAX_SCALE_FACTOR as int
    } else {
        x
    }
}

/// A query `{ p { f } }` over an input whose field `p` is an array of `n`
/// objects, each selecting `m` units for field `f` with rate `r` (and `p`
/// carrying no rate), has the scale factor `n * m * r` clamped to
/// `[MIN_SCALE_FACTOR, MAX_SCALE_FACTOR]`.
pub proof fn lemma_nested_query_scale(
    input: Json,
    p: Seq<char>,
    f: Seq<char>,
    r: u64,
    items: Vec<Json>,
    m: nat,
)
    requires
        field_of(input, p) == Some(Json::Array(items)),
        forall|i: int| 0 <= i < items@.len() ==> size_of(field_of(items@[i], f)) == m,
    ensures
        scale_factor(visit(visit(initial(input), p, None), f, Some(r)).groups) == clamped(
            items@.len() * m * r,
        ),
{
    let s0 = initial(input);
    let s1 = visit(s0, p, None);
    assert(seq![input].drop_last() =~= Seq::<Json>::empty());
    assert(children(seq![input], p) =~= items@) by {
        assert(children(Seq::<Json>::empty(), p) =~= Seq::<Json>::empty());
        assert(seq![input].last() == input);
    }
    assert(s1.values.last() =~= items@);
    assert(s1.groups =~= Seq::<(Seq<Seq<char>>, Seq<int>)>::empty());
    lemma_cumulative_per_path(s1, f, r, m);
    let g = visit(s1, f, Some(r)).groups;
    assert(find_group(s1.groups, s1.path.push(f), 0) == 0);
    assert(g.len() == 1);
    assert(g.last() == g[0]);
    assert(g.drop_last() =~= Seq::<(Seq<Seq<char>>, Seq<int>)>::empty());
    let total = seq_sum(g[0].1);
    assert(total == items@.len() * m * r);
    assert(largest_sum(g.drop_last()) == MIN_SCALE_FACTOR as int);
    assert(seq_sum(g.last().1) == total);
    assert(largest_sum(g) == (if MIN_SCALE_FACTOR as int >= total {
        MIN_SCALE_FACTOR as int
    } else {
        total
    }));
}

} // verus!
