//! Dimension maps and single selections from them.
//!
//! A `Permutations` value maps dimension names to ordered candidate values;
//! a `Permutation` picks exactly one value per dimension.  Both keep their
//! entries strictly sorted by dimension name, so later expansion does not
//! depend on the order in which dimensions were added.

use crate::text::{lemma_lex_connex, lemma_lex_irrefl, lemma_lex_lt_trans, lex_lt, str_lt};
use vstd::prelude::*;

verus! {

/// Whether an association list has strictly ascending keys.
pub open spec fn keys_strictly_sorted<V>(s: Seq<(Seq<char>, V)>) -> bool {
    forall|i: int, j: int| 0 <= i < j < s.len() ==> lex_lt(#[trigger] s[i].0, #[trigger] s[j].0)
}

/// The result of placing `(name, value)` into a key-sorted association
/// list: an entry with an equal key is replaced, otherwise the new entry
/// appears at its ordered position.
pub open spec fn spec_assoc_insert<V>(s: Seq<(Seq<char>, V)>, name: Seq<char>, value: V) -> Seq<
    (Seq<char>, V),
>
    decreases s.len(),
{
    if s.len() == 0 {
        seq![(name, value)]
    } else if name == s[0].0 {
        seq![(name, value)] + s.drop_first()
    } else if lex_lt(name, s[0].0) {
        seq![(name, value)] + s
    } else {
        seq![s[0]] + spec_assoc_insert(s.drop_first(), name, value)
    }
}

/// Splitting lemma: once the first `k` keys are known to come before
/// `name`, the insertion happens entirely in the remainder.
proof fn lemma_assoc_insert_split<V>(s: Seq<(Seq<char>, V)>, name: Seq<char>, value: V, k: int)
    requires
        0 <= k <= s.len(),
        forall|j: int| 0 <= j < k ==> lex_lt(#[trigger] s[j].0, name),
    ensures
        spec_assoc_insert(s, name, value) =~= s.take(k) + spec_assoc_insert(s.skip(k), name, value),
    decreases k,
{
    if k == 0 {
        assert(s.take(0) =~= Seq::<(Seq<char>, V)>::empty());
        assert(s.skip(0) =~= s);
    } else {
        assert(lex_lt(s[0].0, name));
        if name == s[0].0 {
            lemma_lex_irrefl(name);
            assert(false);
        }
        if lex_lt(name, s[0].0) {
            lemma_lex_lt_trans(name, s[0].0, name);
            lemma_lex_irrefl(name);
            assert(false);
        }
        assert(forall|j: int| 0 <= j < k - 1 ==> lex_lt(#[trigger] s.drop_first()[j].0, name));
        lemma_assoc_insert_split(s.drop_first(), name, value, k - 1);
        assert(s.drop_first().take(k - 1) =~= s.take(k).drop_first());
        assert(s.drop_first().skip(k - 1) =~= s.skip(k));
        assert(seq![s[0]] + (s.drop_first().take(k - 1) + spec_assoc_insert(
            s.skip(k),
            name,
            value,
        )) =~= s.take(k) + spec_assoc_insert(s.skip(k), name, value));
    }
}

/// Every entry of an insertion result is the inserted entry or one of the
/// original entries.
proof fn lemma_assoc_insert_keys<V>(s: Seq<(Seq<char>, V)>, name: Seq<char>, value: V, j: int)
    requires
        0 <= j < spec_assoc_insert(s, name, value).len(),
    ensures
        spec_assoc_insert(s, name, value)[j] == (name, value) || exists|m: int|
            0 <= m < s.len() && spec_assoc_insert(s, name, value)[j] == s[m],
    decreases s.len(),
{
    let r = spec_assoc_insert(s, name, value);
    if s.len() == 0 {
    } else if name == s[0].0 {
        if j > 0 {
            assert(r[j] == s[j]);
        }
    } else if lex_lt(name, s[0].0) {
        if j > 0 {
            assert(r[j] == s[j - 1]);
        }
    } else {
        if j == 0 {
            assert(r[0] == s[0]);
        } else {
            lemma_assoc_insert_keys(s.drop_first(), name, value, j - 1);
            let rr = spec_assoc_insert(s.drop_first(), name, value);
            assert(r[j] == rr[j - 1]);
            if rr[j - 1] != (name, value) {
                let m = choose|m: int|
                    0 <= m < s.drop_first().len() && rr[j - 1] == s.drop_first()[m];
                assert(r[j] == s[m + 1]);
            }
        }
    }
}

/// Inserting into a key-sorted list keeps the keys strictly sorted.
proof fn lemma_assoc_insert_sorted<V>(s: Seq<(Seq<char>, V)>, name: Seq<char>, value: V)
    requires
        keys_strictly_sorted(s),
    ensures
        keys_strictly_sorted(spec_assoc_insert(s, name, value)),
    decreases s.len(),
{
    let r = spec_assoc_insert(s, name, value);
    if s.len() == 0 {
    } else if name == s[0].0 {
        assert forall|i: int, j: int| 0 <= i < j < r.len() implies lex_lt(
            #[trigger] r[i].0,
            #[trigger] r[j].0,
        ) by {
            assert(r[j] == s[j]);
            if i > 0 {
                assert(r[i] == s[i]);
            }
        }
    } else if lex_lt(name, s[0].0) {
        assert forall|i: int, j: int| 0 <= i < j < r.len() implies lex_lt(
            #[trigger] r[i].0,
            #[trigger] r[j].0,
        ) by {
            assert(r[j] == s[j - 1]);
            if i > 0 {
                assert(r[i] == s[i - 1]);
            } else {
                if j - 1 > 0 {
                    assert(lex_lt(s[0].0, s[j - 1].0));
                    lemma_lex_lt_trans(name, s[0].0, s[j - 1].0);
                }
            }
        }
    } else {
        lemma_lex_connex(name, s[0].0);
        assert(lex_lt(s[0].0, name));
        lemma_assoc_insert_sorted(s.drop_first(), name, value);
        let rr = spec_assoc_insert(s.drop_first(), name, value);
        assert forall|i: int, j: int| 0 <= i < j < r.len() implies lex_lt(
            #[trigger] r[i].0,
            #[trigger] r[j].0,
        ) by {
            if i == 0 {
                lemma_assoc_insert_keys(s.drop_first(), name, value, j - 1);
                if rr[j - 1] == (name, value) {
                    assert(lex_lt(r[0].0, r[j].0));
                } else {
                    let m = choose|m: int|
                        0 <= m < s.drop_first().len() && rr[j - 1] == s.drop_first()[m];
                    assert(lex_lt(s[0].0, s[m + 1].0));
                }
            } else {
                assert(r[i] == rr[i - 1] && r[j] == rr[j - 1]);
            }
        }
    }
}

/// Places `(name, value)` into a key-sorted association list held in a
/// vector, replacing the entry whose key equals `name` if there is one.
fn assoc_insert<V: DeepView>(v: &mut Vec<(String, V)>, name: String, value: V)
    requires
        keys_strictly_sorted(old(v).deep_view()),
    ensures
        final(v).deep_view() == spec_assoc_insert(
            old(v).deep_view(),
            name@,
            value.deep_view(),
        ),
        keys_strictly_sorted(final(v).deep_view()),
{
    proof {
        lemma_assoc_insert_sorted(old(v).deep_view(), name@, value.deep_view());
    }
    let ghost prior = v.deep_view();
    let mut k: usize = 0;
    loop
        invariant
            0 <= k <= v@.len(),
            v.deep_view() == prior,
            v@.len() == prior.len(),
            forall|j: int| 0 <= j < k ==> lex_lt(#[trigger] prior[j].0, name@),
        ensures
            0 <= k <= v@.len(),
            v.deep_view() == prior,
            v@.len() == prior.len(),
            v@ == old(v)@,
            forall|j: int| 0 <= j < k ==> lex_lt(#[trigger] prior[j].0, name@),
            k < prior.len() ==> !lex_lt(prior[k as int].0, name@),
        decreases v@.len() - k,
    {
        if k == v.len() {
            break;
        }
        proof {
            assert(v.deep_view()[k as int] == (v@[k as int].0@, v@[k as int].1.deep_view()));
        }
        if !str_lt(v[k].0.as_str(), name.as_str()) {
            break;
        }
        k = k + 1;
    }
    let ghost pos = k as int;
    proof {
        lemma_assoc_insert_split(prior, name@, value.deep_view(), pos);
    }
    let key_matches: bool = if k < v.len() {
        v[k].0 == name
    } else {
        false
    };
    if key_matches {
        // Equal key: replace the value in place.
        let _ = v.remove(k);
        v.insert(k, (name, value));
        proof {
            assert(prior.skip(pos).len() > 0 && name@ == prior.skip(pos)[0].0);
            assert(spec_assoc_insert(prior.skip(pos), name@, value.deep_view()) =~= seq![
                (name@, value.deep_view()),
            ] + prior.skip(pos).drop_first());
            assert(v.deep_view() =~= prior.take(pos) + (seq![(name@, value.deep_view())]
                + prior.skip(pos).drop_first()));
        }
    } else {
        v.insert(k, (name, value));
        proof {
            if pos < prior.len() {
                lemma_lex_connex(name@, prior[pos].0);
                assert(lex_lt(name@, prior.skip(pos)[0].0));
                assert(spec_assoc_insert(prior.skip(pos), name@, value.deep_view()) =~= seq![
                    (name@, value.deep_view()),
                ] + prior.skip(pos));
            } else {
                assert(prior.skip(pos).len() == 0);
            }
            assert(v.deep_view() =~= prior.take(pos) + (seq![(name@, value.deep_view())]
                + prior.skip(pos)));
        }
    }
}

/// One chosen value per dimension, with entries sorted by dimension name.
#[derive(Clone, Debug, PartialEq)]
pub struct Permutation {
    items: Vec<(String, String)>,
}

impl DeepView for Permutation {
    type V = Seq<(Seq<char>, Seq<char>)>;

    closed spec fn deep_view(&self) -> Seq<(Seq<char>, Seq<char>)> {
        self.items.deep_view()
    }
}

impl Permutation {
    /// Well-formedness: dimension names are strictly sorted, hence unique.
    pub open spec fn wf(&self) -> bool {
        keys_strictly_sorted(self.deep_view())
    }

    /// An empty selection.
    pub fn new() -> (r: Self)
        ensures
            r.deep_view() == Seq::<(Seq<char>, Seq<char>)>::empty(),
            r.wf(),
    {
        let r = Permutation { items: Vec::new() };
        proof {
            assert(r.deep_view() =~= Seq::<(Seq<char>, Seq<char>)>::empty());
        }
        r
    }

    /// Chooses `value` for the dimension `name`, replacing any earlier
    /// choice for the same name.
    pub fn insert(&mut self, name: String, value: String)
        requires
            old(self).wf(),
        ensures
            final(self).deep_view() == spec_assoc_insert(old(self).deep_view(), name@, value@),
            final(self).wf(),
    {
        assoc_insert(&mut self.items, name, value);
    }

    /// Read access to the sorted (name, value) pairs.
    pub fn entries(&self) -> (r: &Vec<(String, String)>)
        ensures
            r.deep_view() == self.deep_view(),
    {
        &self.items
    }

    /// An owned copy with the same entries.
    pub fn cloned(&self) -> (r: Self)
        ensures
            r.deep_view() == self.deep_view(),
    {
        let mut items: Vec<(String, String)> = Vec::new();
        let mut i: usize = 0;
        while i < self.items.len()
            invariant
                0 <= i <= self.items@.len(),
                items@ =~= self.items@.subrange(0, i as int),
            decreases self.items@.len() - i,
        {
            items.push((self.items[i].0.clone(), self.items[i].1.clone()));
            i = i + 1;
        }
        proof {
            assert(items@ =~= self.items@);
        }
        Permutation { items }
    }
}

/// Dimension names mapped to their ordered candidate values, with entries
/// sorted by dimension name.
#[derive(Clone, Debug, PartialEq)]
pub struct Permutations {
    items: Vec<(String, Vec<String>)>,
}

impl DeepView for Permutations {
    type V = Seq<(Seq<char>, Seq<Seq<char>>)>;

    closed spec fn deep_view(&self) -> Seq<(Seq<char>, Seq<Seq<char>>)> {
        self.items.deep_view()
    }
}

impl Permutations {
    /// Well-formedness: dimension names are strictly sorted, hence unique.
    pub open spec fn wf(&self) -> bool {
        keys_strictly_sorted(self.deep_view())
    }

    /// An empty dimension map.
    pub fn new() -> (r: Self)
        ensures
            r.deep_view() == Seq::<(Seq<char>, Seq<Seq<char>>)>::empty(),
            r.wf(),
    {
        let r = Permutations { items: Vec::new() };
        proof {
            assert(r.deep_view() =~= Seq::<(Seq<char>, Seq<Seq<char>>)>::empty());
        }
        r
    }

    /// Sets the candidate values of the dimension `name`, replacing any
    /// earlier values under the same name.
    pub fn insert(&mut self, name: String, values: Vec<String>)
        requires
            old(self).wf(),
        ensures
            final(self).deep_view() == spec_assoc_insert(
                old(self).deep_view(),
                name@,
                values.deep_view(),
            ),
            final(self).wf(),
    {
        assoc_insert(&mut self.items, name, values);
    }

    /// Read access to the sorted (name, values) pairs.
    pub fn entries(&self) -> (r: &Vec<(String, Vec<String>)>)
        ensures
            r.deep_view() == self.deep_view(),
    {
        &self.items
    }

    /// An owned copy with the same entries.
    pub fn cloned(&self) -> (r: Self)
        ensures
            r.deep_view() == self.deep_view(),
            r.wf() == self.wf(),
    {
        let mut items: Vec<(String, Vec<String>)> = Vec::new();
        let mut i: usize = 0;
        while i < self.items.len()
            invariant
                0 <= i <= self.items@.len(),
                items@.len() == i,
                items.deep_view() =~= self.items.deep_view().subrange(0, i as int),
            decreases self.items@.len() - i,
        {
            let vals = clone_strings(&self.items[i].1);
            proof {
                assert(vals.deep_view() =~= self.items@[i as int].1.deep_view());
            }
            items.push((self.items[i].0.clone(), vals));
            proof {
                assert(items@[i as int].deep_view() == self.items@[i as int].deep_view());
                assert(items.deep_view() =~= self.items.deep_view().subrange(0, i as int + 1));
            }
            i = i + 1;
        }
        proof {
            assert(items.deep_view() =~= self.items.deep_view());
        }
        Permutations { items }
    }
}

/// The number of selections that the dimensions from index `from` on
/// admit: the product of their value counts.
pub open spec fn product_count(dims: Seq<(Seq<char>, Seq<Seq<char>>)>, from: int) -> nat
    decreases dims.len() - from,
{
    if from < 0 || from >= dims.len() {
        1
    } else {
        dims[from].1.len() * product_count(dims, from + 1)
    }
}

/// Each selection of `rest` prefixed with `(name, val)`, in order.
pub open spec fn prepend_all(
    name: Seq<char>,
    val: Seq<char>,
    rest: Seq<Seq<(Seq<char>, Seq<char>)>>,
) -> Seq<Seq<(Seq<char>, Seq<char>)>> {
    rest.map_values(|p: Seq<(Seq<char>, Seq<char>)>| seq![(name, val)] + p)
}

/// One expansion round: every value of one dimension (outer), prefixed to
/// every selection of the remaining dimensions (inner).
pub open spec fn expand_step(
    name: Seq<char>,
    vals: Seq<Seq<char>>,
    rest: Seq<Seq<(Seq<char>, Seq<char>)>>,
) -> Seq<Seq<(Seq<char>, Seq<char>)>>
    decreases vals.len(),
{
    if vals.len() == 0 {
        Seq::empty()
    } else {
        prepend_all(name, vals[0], rest) + expand_step(name, vals.drop_first(), rest)
    }
}

/// The full cartesian product of the dimensions from index `from` on, as
/// (name, value) selections; with no dimensions left it is the single
/// empty selection, and the earliest dimension varies slowest.
pub open spec fn spec_expand(dims: Seq<(Seq<char>, Seq<Seq<char>>)>, from: int) -> Seq<
    Seq<(Seq<char>, Seq<char>)>,
>
    decreases dims.len() - from,
{
    if from < 0 || from >= dims.len() {
        seq![Seq::<(Seq<char>, Seq<char>)>::empty()]
    } else {
        expand_step(dims[from].0, dims[from].1, spec_expand(dims, from + 1))
    }
}

/// One expansion round distributes over splitting the value list.
proof fn lemma_expand_step_concat(
    name: Seq<char>,
    a: Seq<Seq<char>>,
    b: Seq<Seq<char>>,
    rest: Seq<Seq<(Seq<char>, Seq<char>)>>,
)
    ensures
        expand_step(name, a + b, rest) =~= expand_step(name, a, rest) + expand_step(name, b, rest),
    decreases a.len(),
{
    if a.len() == 0 {
        assert(a + b =~= b);
        assert(expand_step(name, a, rest) =~= Seq::<Seq<(Seq<char>, Seq<char>)>>::empty());
    } else {
        assert((a + b)[0] == a[0]);
        assert((a + b).drop_first() =~= a.drop_first() + b);
        lemma_expand_step_concat(name, a.drop_first(), b, rest);
        assert((a + b).len() != 0);
        assert(expand_step(name, a + b, rest) =~= prepend_all(name, a[0], rest) + expand_step(
            name,
            (a + b).drop_first(),
            rest,
        ));
    }
}

/// One expansion round multiplies the number of selections.
proof fn lemma_expand_step_len(
    name: Seq<char>,
    vals: Seq<Seq<char>>,
    rest: Seq<Seq<(Seq<char>, Seq<char>)>>,
)
    ensures
        expand_step(name, vals, rest).len() == vals.len() * rest.len(),
    decreases vals.len(),
{
    if vals.len() > 0 {
        lemma_expand_step_len(name, vals.drop_first(), rest);
        assert(vals.len() * rest.len() == rest.len() + (vals.len() - 1) * rest.len())
            by (nonlinear_arith);
    }
}

/// The expansion holds exactly as many selections as the product of the
/// dimensions' value counts.
pub proof fn lemma_expand_count(dims: Seq<(Seq<char>, Seq<Seq<char>>)>, from: int)
    ensures
        spec_expand(dims, from).len() == product_count(dims, from),
    decreases dims.len() - from,
{
    if 0 <= from < dims.len() {
        lemma_expand_count(dims, from + 1);
        lemma_expand_step_len(dims[from].0, dims[from].1, spec_expand(dims, from + 1));
    }
}

/// With no dimensions at all, the expansion is exactly one empty
/// selection: the cartesian product of zero factors is the empty tuple.
pub proof fn lemma_expand_zero_dimensions(dims: Seq<(Seq<char>, Seq<Seq<char>>)>)
    requires
        dims.len() == 0,
    ensures
        spec_expand(dims, 0) == seq![Seq::<(Seq<char>, Seq<char>)>::empty()],
{
}

/// One dimension with no values collapses the whole product to nothing.
pub proof fn lemma_empty_dimension_collapses(dims: Seq<(Seq<char>, Seq<Seq<char>>)>, d: int)
    requires
        0 <= d < dims.len(),
        dims[d].1.len() == 0,
    ensures
        product_count(dims, 0) == 0,
{
    lemma_empty_dimension_collapses_from(dims, d, 0);
}

proof fn lemma_empty_dimension_collapses_from(dims: Seq<(Seq<char>, Seq<Seq<char>>)>, d: int, from: int)
    requires
        0 <= from <= d < dims.len(),
        dims[d].1.len() == 0,
    ensures
        product_count(dims, from) == 0,
    decreases d - from,
{
    if from < d {
        lemma_empty_dimension_collapses_from(dims, d, from + 1);
        assert(product_count(dims, from) == dims[from].1.len() * product_count(dims, from + 1));
        assert(dims[from].1.len() * 0 == 0) by (nonlinear_arith);
    } else {
        assert(product_count(dims, from) == dims[d].1.len() * product_count(dims, from + 1));
    }
}

/// Whether `p` selects exactly the dimensions of `dims` from index `from`
/// on, in the same name order.
pub open spec fn perm_keys_match(
    p: Seq<(Seq<char>, Seq<char>)>,
    dims: Seq<(Seq<char>, Seq<Seq<char>>)>,
    from: int,
) -> bool {
    p.len() == dims.len() - from && forall|d: int|
        0 <= d < p.len() ==> (#[trigger] p[d]).0 == dims[from + d].0
}

/// Expands the dimensions from index `from` on into every selection.
fn product_from(dims: &Vec<(String, Vec<String>)>, from: usize) -> (r: Vec<Permutation>)
    requires
        from <= dims@.len(),
    ensures
        r.deep_view() == spec_expand(dims.deep_view(), from as int),
        forall|p: int|
            0 <= p < r.deep_view().len() ==> perm_keys_match(
                #[trigger] r.deep_view()[p],
                dims.deep_view(),
                from as int,
            ),
    decreases dims@.len() - from,
{
    let ghost dims_dv = dims.deep_view();
    if from == dims.len() {
        let mut out: Vec<Permutation> = Vec::new();
        out.push(Permutation::new());
        proof {
            assert(out.deep_view() =~= spec_expand(dims_dv, from as int));
        }
        return out;
    }
    let rest = product_from(dims, from + 1);
    let ghost rest_dv = rest.deep_view();
    let ghost name_v = dims_dv[from as int].0;
    let ghost vals_v = dims_dv[from as int].1;
    proof {
        assert(dims_dv[from as int] == (dims@[from as int].0@, dims@[from as int].1.deep_view()));
    }
    let mut out: Vec<Permutation> = Vec::new();
    let mut t: usize = 0;
    while t < dims[from].1.len()
        invariant
            from < dims@.len(),
            dims_dv == dims.deep_view(),
            rest_dv == rest.deep_view(),
            rest@.len() == rest_dv.len(),
            name_v == dims_dv[from as int].0,
            vals_v == dims_dv[from as int].1,
            vals_v.len() == dims@[from as int].1@.len(),
            0 <= t <= vals_v.len(),
            forall|p: int|
                0 <= p < rest_dv.len() ==> perm_keys_match(
                    #[trigger] rest_dv[p],
                    dims_dv,
                    from + 1 as int,
                ),
            out@.len() == expand_step(name_v, vals_v.take(t as int), rest_dv).len(),
            out.deep_view() =~= expand_step(name_v, vals_v.take(t as int), rest_dv),
        decreases vals_v.len() - t,
    {
        let ghost out_before = out.deep_view();
        let mut q: usize = 0;
        while q < rest.len()
            invariant
                from < dims@.len(),
                t < vals_v.len(),
                dims_dv == dims.deep_view(),
                rest_dv == rest.deep_view(),
                rest@.len() == rest_dv.len(),
                name_v == dims_dv[from as int].0,
                vals_v == dims_dv[from as int].1,
                vals_v.len() == dims@[from as int].1@.len(),
                0 <= q <= rest_dv.len(),
                out@.len() == out_before.len() + q,
                out.deep_view() =~= out_before + prepend_all(name_v, vals_v[t as int], rest_dv).take(
                    q as int,
                ),
            decreases rest_dv.len() - q,
        {
            let mut c = rest[q].cloned();
            c.items.insert(0, (dims[from].0.clone(), dims[from].1[t].clone()));
            proof {
                assert(c.deep_view() =~= seq![(name_v, vals_v[t as int])] + rest_dv[q as int]);
                assert(c.deep_view() == prepend_all(name_v, vals_v[t as int], rest_dv)[q as int]);
            }
            let ghost pre = out.deep_view();
            let ghost prevec = out@;
            out.push(c);
            proof {
                let pa = prepend_all(name_v, vals_v[t as int], rest_dv);
                assert(out@ == prevec.push(c));
                assert forall|m: int| 0 <= m < pre.len() implies out.deep_view()[m] == pre[m] by {
                    assert(out@[m] == prevec[m]);
                }
                assert(out.deep_view()[pre.len() as int] == c.deep_view());
                assert(out.deep_view() =~= pre.push(c.deep_view()));
                assert(pa.take(q as int + 1) =~= pa.take(q as int).push(pa[q as int]));
                assert(out.deep_view() =~= out_before + pa.take(q as int + 1));
            }
            q = q + 1;
        }
        proof {
            assert(prepend_all(name_v, vals_v[t as int], rest_dv).take(rest_dv.len() as int)
                =~= prepend_all(name_v, vals_v[t as int], rest_dv));
            lemma_expand_step_concat(name_v, vals_v.take(t as int), seq![vals_v[t as int]], rest_dv);
            assert(vals_v.take(t + 1 as int) =~= vals_v.take(t as int) + seq![vals_v[t as int]]);
            let single = seq![vals_v[t as int]];
            assert(single.drop_first() =~= Seq::<Seq<char>>::empty());
            assert(expand_step(name_v, Seq::<Seq<char>>::empty(), rest_dv)
                =~= Seq::<Seq<(Seq<char>, Seq<char>)>>::empty());
            assert(expand_step(name_v, single, rest_dv) =~= prepend_all(
                name_v,
                vals_v[t as int],
                rest_dv,
            ));
        }
        t = t + 1;
    }
    proof {
        assert(vals_v.take(vals_v.len() as int) =~= vals_v);
        assert(out.deep_view() =~= spec_expand(dims_dv, from as int));
        assert forall|p: int| 0 <= p < out.deep_view().len() implies perm_keys_match(
            #[trigger] out.deep_view()[p],
            dims_dv,
            from as int,
        ) by {
            lemma_expand_members(name_v, vals_v, rest_dv, p);
            let w = choose|w: int, m: int|
                0 <= w < vals_v.len() && 0 <= m < rest_dv.len() && expand_step(
                    name_v,
                    vals_v,
                    rest_dv,
                )[p] == seq![(name_v, vals_v[w])] + rest_dv[m];
        }
    }
    out
}

/// Every member of an expansion round is some value of the dimension
/// prefixed to some selection of the rest.
proof fn lemma_expand_members(
    name: Seq<char>,
    vals: Seq<Seq<char>>,
    rest: Seq<Seq<(Seq<char>, Seq<char>)>>,
    p: int,
)
    requires
        0 <= p < expand_step(name, vals, rest).len(),
    ensures
        exists|w: int, m: int|
            0 <= w < vals.len() && 0 <= m < rest.len() && expand_step(name, vals, rest)[p] == seq![
                (name, vals[w]),
            ] + rest[m],
    decreases vals.len(),
{
    if vals.len() == 0 {
    } else {
        let head = prepend_all(name, vals[0], rest);
        if p < head.len() {
            assert(expand_step(name, vals, rest)[p] == seq![(name, vals[0])] + rest[p]);
        } else {
            lemma_expand_members(name, vals.drop_first(), rest, p - head.len());
            let (w, m) = choose|w: int, m: int|
                0 <= w < vals.drop_first().len() && 0 <= m < rest.len() && expand_step(
                    name,
                    vals.drop_first(),
                    rest,
                )[p - head.len()] == seq![(name, vals.drop_first()[w])] + rest[m];
            assert(expand_step(name, vals, rest)[p] == seq![(name, vals[w + 1])] + rest[m]);
        }
    }
}

/// Expands a dimension map into the full cartesian product of its values:
/// one `Permutation` for each way of choosing a value per dimension, with
/// no dimensions giving the single empty choice, any valueless dimension
/// collapsing the product to nothing, and the dimension earliest by name
/// varying slowest.
pub fn get_cartesian_product(data: &Permutations) -> (r: Vec<Permutation>)
    requires
        data.wf(),
    ensures
        r.deep_view() == spec_expand(data.deep_view(), 0),
        r@.len() == product_count(data.deep_view(), 0),
        forall|p: int| 0 <= p < r@.len() ==> (#[trigger] r@[p]).wf(),
        forall|p: int|
            0 <= p < r@.len() ==> perm_keys_match(#[trigger] r.deep_view()[p], data.deep_view(), 0),
{
    let dims = data.entries();
    let r = product_from(dims, 0);
    proof {
        lemma_expand_count(data.deep_view(), 0);
        assert forall|p: int| 0 <= p < r@.len() implies (#[trigger] r@[p]).wf() by {
            assert(perm_keys_match(r.deep_view()[p], data.deep_view(), 0));
            assert(r@[p].deep_view() == r.deep_view()[p]);
        }
    }
    r
}

/// An owned copy of a list of strings, equal entry by entry.
pub fn clone_strings(v: &Vec<String>) -> (r: Vec<String>)
    ensures
        r@ == v@,
{
    let mut r: Vec<String> = Vec::new();
    let mut i: usize = 0;
    while i < v.len()
        invariant
            0 <= i <= v@.len(),
            r@ =~= v@.subrange(0, i as int),
        decreases v@.len() - i,
    {
        r.push(v[i].clone());
        i = i + 1;
    }
    proof {
        assert(r@ =~= v@);
    }
    r
}

} // verus!
