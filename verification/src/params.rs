//! The parameters of a request and the order in which they are signed.

use vstd::prelude::*;

use crate::ordering;
use crate::text;

verus! {

/// One parameter: its name and its value.
pub type Param = (Seq<char>, Seq<char>);

/// What a parameter's name is sorted by: the UTF-8 bytes of the name in small
/// letters.
pub open spec fn sort_key(name: Seq<char>) -> Seq<u8> {
    vstd::utf8::encode_utf8(text::lowered(name))
}

/// Names that differ in the case of ASCII letters alone have one sort key.
pub proof fn lemma_sort_key_ignores_case(a: Seq<char>, b: Seq<char>)
    requires
        text::ascii_lower(a) == text::ascii_lower(b),
    ensures
        sort_key(a) == sort_key(b),
{
    text::lemma_lowered_ignores_case(a, b);
}

/// The first parameter does not sort after the second.
pub open spec fn param_le(a: Param, b: Param) -> bool {
    ordering::bytes_le(sort_key(a.0), sort_key(b.0))
}

/// A parameter put behind all those of a sorted list that do not sort after it.
pub open spec fn insert_sorted(sorted: Seq<Param>, p: Param) -> Seq<Param>
    decreases sorted.len(),
{
    if sorted.len() == 0 || param_le(sorted.last(), p) {
        sorted.push(p)
    } else {
        insert_sorted(sorted.drop_last(), p).push(sorted.last())
    }
}

/// Parameters in the order of their sort keys; those with one sort key keep
/// their order.
pub open spec fn sorted_params(params: Seq<Param>) -> Seq<Param>
    decreases params.len(),
{
    if params.len() == 0 {
        seq![]
    } else {
        insert_sorted(sorted_params(params.drop_last()), params.last())
    }
}

/// Every parameter stands before those that sort after it.
pub open spec fn is_sorted(params: Seq<Param>) -> bool {
    forall|i: int, j: int|
        0 <= i < j < params.len() ==> #[trigger] param_le(params[i], params[j])
}

/// The parameters that names and values stand for.
pub open spec fn params_view(p: Seq<(String, String)>) -> Seq<Param> {
    p.map_values(|e: (String, String)| (e.0@, e.1@))
}

/// The parameters that references to their names and values stand for.
pub open spec fn refs_view(p: Seq<(&String, &String)>) -> Seq<Param> {
    p.map_values(|e: (&String, &String)| (e.0@, e.1@))
}

/// The parameters' values by their names.
pub open spec fn as_map(params: Seq<Param>) -> Map<Seq<char>, Seq<char>>
    decreases params.len(),
{
    if params.len() == 0 {
        Map::empty()
    } else {
        as_map(params.drop_last()).insert(params.last().0, params.last().1)
    }
}

/// No name occurs twice.
pub open spec fn distinct_names(params: Seq<Param>) -> bool {
    forall|i: int, j: int|
        0 <= i < j < params.len() ==> #[trigger] params[i].0 != #[trigger] params[j].0
}

/// One of the parameters has the name.
pub open spec fn has_name(params: Seq<Param>, name: Seq<char>) -> bool {
    exists|i: int| 0 <= i < params.len() && #[trigger] params[i].0 == name
}

/// A parameter set among others: in the place of the parameter of that name
/// where there is one, else behind the last.
pub open spec fn with_param(params: Seq<Param>, name: Seq<char>, value: Seq<char>) -> Seq<Param> {
    if has_name(params, name) {
        params.map_values(
            |p: Param|
                if p.0 == name {
                    (name, value)
                } else {
                    p
                },
        )
    } else {
        params.push((name, value))
    }
}

/// Request parameters by name: each name has one value, and setting a name
/// anew replaces its value.
pub struct ParamMap {
    entries: Vec<(String, String)>,
}

impl View for ParamMap {
    type V = Seq<Param>;

    closed spec fn view(&self) -> Seq<Param> {
        params_view(self.entries@)
    }
}

impl ParamMap {
    #[verifier::type_invariant]
    spec fn wf(self) -> bool {
        distinct_names(self@)
    }

    /// No parameters.
    pub fn new() -> (r: ParamMap)
        ensures
            r@ == Seq::<Param>::empty(),
            distinct_names(r@),
    {
        let r = ParamMap { entries: Vec::new() };
        assert(r@ =~= Seq::<Param>::empty());
        r
    }

    /// Gives the parameter `name` the value `value`.
    pub fn insert(&mut self, name: String, value: String)
        ensures
            final(self)@ == with_param(old(self)@, name@, value@),
            distinct_names(final(self)@),
    {
        proof {
            use_type_invariant(&*self);
        }
        let ghost before = self.entries@;
        let ghost params = params_view(before);
        let mut entries: Vec<(String, String)> = Vec::new();
        std::mem::swap(&mut entries, &mut self.entries);
        let mut i: usize = 0;
        while i < entries.len() && entries[i].0 != name
            invariant
                i <= entries@.len(),
                entries@ == before,
                params == params_view(before),
                forall|j: int| 0 <= j < i ==> #[trigger] params[j].0 != name@,
            decreases entries@.len() - i,
        {
            assert(params[i as int].0 == entries@[i as int].0@);
            i = i + 1;
        }
        let ghost after = with_param(params, name@, value@);
        if i < entries.len() {
            assert(params[i as int].0 == name@);
            entries.set(i, (name, value));
        } else {
            entries.push((name, value));
        }
        assert(params_view(entries@) =~= after);
        assert(distinct_names(after));
        self.entries = entries;
    }

    /// The parameters in signing order.
    pub(crate) fn sorted(&self) -> (r: Vec<(&String, &String)>)
        ensures
            refs_view(r@) == sorted_params(self@),
            distinct_names(self@),
    {
        proof {
            use_type_invariant(self);
        }
        let mut r: Vec<(&String, &String)> = Vec::new();
        let mut keys: Vec<String> = Vec::new();
        let mut i: usize = 0;
        assert(refs_view(r@) =~= sorted_params(self@.take(0)));
        while i < self.entries.len()
            invariant
                i <= self.entries@.len(),
                self@ == params_view(self.entries@),
                refs_view(r@) == sorted_params(self@.take(i as int)),
                keys@.len() == r@.len(),
                forall|k: int|
                    0 <= k < keys@.len() ==> (#[trigger] keys@[k])@ == text::lowered(r@[k].0@),
            decreases self.entries@.len() - i,
        {
            let name = &self.entries[i].0;
            let value = &self.entries[i].1;
            let key = name.as_str().to_lowercase();
            let ghost before = refs_view(r@);
            let ghost p: Param = (name@, value@);
            let mut j: usize = r.len();
            assert(before.take(j as int) =~= before);
            assert(before.skip(j as int) =~= Seq::<Param>::empty());
            assert(insert_sorted(before, p) =~= insert_sorted(before.take(j as int), p)
                + before.skip(j as int));
            while j > 0 && !ordering::text_le(keys[j - 1].as_str(), key.as_str())
                invariant
                    j <= r@.len(),
                    keys@.len() == r@.len(),
                    before == refs_view(r@),
                    p.0 == name@,
                    key@ == text::lowered(name@),
                    forall|k: int|
                        0 <= k < keys@.len() ==> (#[trigger] keys@[k])@ == text::lowered(r@[k].0@),
                    insert_sorted(before, p) == insert_sorted(before.take(j as int), p)
                        + before.skip(j as int),
                decreases j,
            {
                let ghost front = before.take(j as int);
                assert(front.last() == before[j - 1]);
                assert(keys@[j - 1]@ == text::lowered(r@[j - 1].0@));
                assert(front.drop_last() =~= before.take(j - 1));
                assert(insert_sorted(front, p) =~= insert_sorted(front.drop_last(), p).push(
                    front.last(),
                ));
                assert(insert_sorted(front, p) + before.skip(j as int) =~= insert_sorted(
                    before.take(j - 1),
                    p,
                ) + before.skip(j - 1));
                j = j - 1;
            }
            proof {
                let front = before.take(j as int);
                if j > 0 {
                    assert(front.last() == before[j - 1]);
                    assert(keys@[j - 1]@ == text::lowered(r@[j - 1].0@));
                }
                assert(insert_sorted(front, p) == front.push(p));
                assert(insert_sorted(before, p) =~= before.insert(j as int, p));
            }
            r.insert(j, (name, value));
            keys.insert(j, key);
            assert(refs_view(r@) =~= before.insert(j as int, p));
            proof {
                let taken = self@.take(i + 1);
                assert(taken.drop_last() =~= self@.take(i as int));
                assert(taken.last() == p);
            }
            i = i + 1;
        }
        assert(self@.take(i as int) =~= self@);
        r
    }
}

/// A sorted list is sorted without its last parameter.
proof fn lemma_sorted_front(params: Seq<Param>)
    requires
        is_sorted(params),
        params.len() > 0,
    ensures
        is_sorted(params.drop_last()),
{
    let front = params.drop_last();
    assert forall|i: int, j: int| 0 <= i < j < front.len() implies #[trigger] param_le(
        front[i],
        front[j],
    ) by {
        assert(param_le(params[i], params[j]));
    }
}

/// Inserting into a sorted list keeps it sorted.
proof fn lemma_insert_is_sorted(sorted: Seq<Param>, p: Param)
    requires
        is_sorted(sorted),
    ensures
        is_sorted(insert_sorted(sorted, p)),
        insert_sorted(sorted, p).to_multiset() == sorted.to_multiset().insert(p),
        insert_sorted(sorted, p).len() == sorted.len() + 1,
    decreases sorted.len(),
{
    broadcast use vstd::seq_lib::group_to_multiset_ensures;
    broadcast use vstd::multiset::group_multiset_axioms;

    let r = insert_sorted(sorted, p);
    if sorted.len() == 0 {
    } else if param_le(sorted.last(), p) {
        assert forall|i: int, j: int| 0 <= i < j < r.len() implies #[trigger] param_le(
            r[i],
            r[j],
        ) by {
            if j == sorted.len() && i < sorted.len() - 1 {
                assert(param_le(sorted[i], sorted[sorted.len() - 1]));
                ordering::lemma_bytes_le_transitive(
                    sort_key(r[i].0),
                    sort_key(sorted.last().0),
                    sort_key(p.0),
                );
            } else if j < sorted.len() {
                assert(param_le(sorted[i], sorted[j]));
            }
        }
    } else {
        let front = sorted.drop_last();
        let last = sorted.last();
        lemma_sorted_front(sorted);
        lemma_insert_is_sorted(front, p);
        let inner = insert_sorted(front, p);
        assert(sorted =~= front.push(last));
        assert(r.to_multiset() =~= sorted.to_multiset().insert(p));
        ordering::lemma_bytes_le_total(sort_key(p.0), sort_key(last.0));
        assert forall|i: int, j: int| 0 <= i < j < r.len() implies #[trigger] param_le(
            r[i],
            r[j],
        ) by {
            if j < inner.len() {
                assert(param_le(inner[i], inner[j]));
            } else {
                assert(inner.contains(inner[i]));
                assert(front.to_multiset().insert(p).count(inner[i]) > 0);
                if inner[i] != p {
                    assert(front.to_multiset().count(inner[i]) > 0);
                    assert(front.contains(inner[i]));
                    let k = choose|k: int| 0 <= k < front.len() && front[k] == inner[i];
                    assert(param_le(sorted[k], sorted[sorted.len() - 1]));
                }
            }
        }
    }
}

/// Signing order is the order of the sort keys, and it neither drops nor adds
/// a parameter.
pub proof fn lemma_sorted_params(params: Seq<Param>)
    ensures
        is_sorted(sorted_params(params)),
        sorted_params(params).to_multiset() == params.to_multiset(),
        sorted_params(params).len() == params.len(),
    decreases params.len(),
{
    broadcast use vstd::seq_lib::group_to_multiset_ensures;

    if params.len() > 0 {
        lemma_sorted_params(params.drop_last());
        lemma_insert_is_sorted(sorted_params(params.drop_last()), params.last());
        assert(params =~= params.drop_last().push(params.last()));
    } else {
        assert(params =~= seq![]);
    }
}

/// The parameters with a given sort key.
pub open spec fn with_sort_key(params: Seq<Param>, key: Seq<u8>) -> Seq<Param> {
    params.filter(|p: Param| sort_key(p.0) == key)
}

/// Inserting a parameter puts it last among those with one sort key.
proof fn lemma_insert_is_stable(sorted: Seq<Param>, p: Param, key: Seq<u8>)
    ensures
        with_sort_key(insert_sorted(sorted, p), key) == (if sort_key(p.0) == key {
            with_sort_key(sorted, key).push(p)
        } else {
            with_sort_key(sorted, key)
        }),
    decreases sorted.len(),
{
    reveal(Seq::filter);
    let r = insert_sorted(sorted, p);
    if sorted.len() == 0 || param_le(sorted.last(), p) {
        assert(r.drop_last() =~= sorted);
    } else {
        let front = sorted.drop_last();
        lemma_insert_is_stable(front, p, key);
        assert(r.drop_last() =~= insert_sorted(front, p));
        if sort_key(p.0) == key && sort_key(sorted.last().0) == key {
            ordering::lemma_bytes_le_reflexive(key);
        }
    }
}

/// Parameters whose names differ in letter case alone are signed in the order
/// in which they were given.
pub proof fn lemma_sorted_params_stable(params: Seq<Param>, key: Seq<u8>)
    ensures
        with_sort_key(sorted_params(params), key) == with_sort_key(params, key),
    decreases params.len(),
{
    reveal(Seq::filter);
    if params.len() > 0 {
        lemma_sorted_params_stable(params.drop_last(), key);
        lemma_insert_is_stable(sorted_params(params.drop_last()), params.last(), key);
    } else {
        assert(params =~= seq![]);
    }
}

/// No two parameters have one sort key.
pub open spec fn distinct_sort_keys(params: Seq<Param>) -> bool {
    forall|i: int, j: int|
        0 <= i < j < params.len() ==> sort_key(#[trigger] params[i].0) != sort_key(
            #[trigger] params[j].0,
        )
}

/// Where no sort key occurs twice, no name does.
proof fn lemma_distinct_sort_keys_names(params: Seq<Param>)
    requires
        distinct_sort_keys(params),
    ensures
        distinct_names(params),
{
    assert forall|i: int, j: int| 0 <= i < j < params.len() implies #[trigger] params[i].0
        != #[trigger] params[j].0 by {
        assert(sort_key(params[i].0) != sort_key(params[j].0));
    }
}

/// Where no name occurs twice, no parameter does.
proof fn lemma_no_duplicates(params: Seq<Param>)
    requires
        distinct_names(params),
    ensures
        params.no_duplicates(),
{
    assert forall|i: int, j: int|
        0 <= i < params.len() && 0 <= j < params.len() && i != j implies params[i]
        != params[j] by {
        if i < j {
            assert(params[i].0 != params[j].0);
        } else {
            assert(params[j].0 != params[i].0);
        }
    }
}

/// Two sorted lists of the same parameters are equal where no sort key occurs
/// twice.
pub proof fn lemma_sorted_unique(s: Seq<Param>, t: Seq<Param>)
    requires
        is_sorted(s),
        is_sorted(t),
        distinct_sort_keys(s),
        s.to_multiset() == t.to_multiset(),
    ensures
        s == t,
    decreases s.len(),
{
    broadcast use vstd::seq_lib::group_to_multiset_ensures;
    broadcast use vstd::multiset::group_multiset_axioms;

    assert(s.len() == s.to_multiset().len());
    assert(t.len() == t.to_multiset().len());
    if s.len() == 0 {
        assert(s =~= t);
    } else {
        let n = s.len() - 1;
        let a = s.last();
        let b = t.last();
        assert(s.contains(s[n]));
        assert(t.to_multiset().count(a) > 0);
        assert(t.contains(a));
        assert(t.contains(t[n]));
        assert(s.to_multiset().count(b) > 0);
        assert(s.contains(b));
        let i = choose|i: int| 0 <= i < t.len() && t[i] == a;
        let j = choose|j: int| 0 <= j < s.len() && s[j] == b;
        if a != b {
            assert(param_le(t[i], t[n]));
            assert(param_le(s[j], s[n]));
            ordering::lemma_bytes_le_antisymmetric(sort_key(a.0), sort_key(b.0));
            assert(sort_key(s[j].0) != sort_key(s[n].0));
        }
        let s1 = s.drop_last();
        let t1 = t.drop_last();
        assert(s =~= s1.push(a));
        assert(t =~= t1.push(a));
        assert(s1.to_multiset() =~= s.to_multiset().remove(a));
        assert(t1.to_multiset() =~= t.to_multiset().remove(a));
        lemma_sorted_front(s);
        lemma_sorted_front(t);
        assert(distinct_sort_keys(s1)) by {
            assert forall|x: int, y: int| 0 <= x < y < s1.len() implies sort_key(
                #[trigger] s1[x].0,
            ) != sort_key(#[trigger] s1[y].0) by {
                assert(sort_key(s[x].0) != sort_key(s[y].0));
            }
        }
        lemma_sorted_unique(s1, t1);
    }
}

/// A name has a value exactly where a parameter of that name and value stands
/// in the list.
pub proof fn lemma_as_map(params: Seq<Param>)
    requires
        distinct_names(params),
    ensures
        forall|p: Param|
            #[trigger] params.contains(p) <==> as_map(params).dom().contains(p.0) && as_map(
                params,
            )[p.0] == p.1,
    decreases params.len(),
{
    if params.len() > 0 {
        let front = params.drop_last();
        let last = params.last();
        assert(distinct_names(front)) by {
            assert forall|i: int, j: int| 0 <= i < j < front.len() implies #[trigger] front[i].0
                != #[trigger] front[j].0 by {
                assert(params[i].0 != params[j].0);
            }
        }
        lemma_as_map(front);
        assert forall|p: Param|
            #[trigger] params.contains(p) <==> as_map(params).dom().contains(p.0) && as_map(
                params,
            )[p.0] == p.1 by {
            assert(front.contains(p) <==> as_map(front).dom().contains(p.0) && as_map(front)[p.0]
                == p.1);
            if params.contains(p) {
                let i = choose|i: int| 0 <= i < params.len() && params[i] == p;
                if i < front.len() {
                    assert(front[i] == p);
                    assert(params[i].0 != params[params.len() - 1].0);
                }
            }
            if as_map(params).dom().contains(p.0) && as_map(params)[p.0] == p.1 {
                if p.0 == last.0 {
                    assert(params[params.len() - 1] == p);
                } else {
                    let i = choose|i: int| 0 <= i < front.len() && front[i] == p;
                    assert(params[i] == p);
                }
            }
        }
    }
}

/// Signing order depends on which value each name has and not on the order in
/// which the names were set, as long as no two names differ in letter case
/// alone.
pub proof fn lemma_sorted_params_of_map(a: Seq<Param>, b: Seq<Param>)
    requires
        distinct_names(a),
        distinct_names(b),
        as_map(a) == as_map(b),
        distinct_sort_keys(a),
    ensures
        sorted_params(a) == sorted_params(b),
{
    lemma_as_map(a);
    lemma_as_map(b);
    lemma_no_duplicates(a);
    lemma_no_duplicates(b);
    assert forall|p: Param| a.contains(p) <==> b.contains(p) by {
        assert(a.contains(p) <==> as_map(a).dom().contains(p.0) && as_map(a)[p.0] == p.1);
        assert(b.contains(p) <==> as_map(b).dom().contains(p.0) && as_map(b)[p.0] == p.1);
    }
    lemma_same_multiset(a, b);
    let s = sorted_params(a);
    let t = sorted_params(b);
    lemma_sorted_params(a);
    lemma_sorted_params(b);
    lemma_distinct_sort_keys_permuted(a, s);
    lemma_sorted_unique(s, t);
}

/// A list without a repeated sort key stays so in any order.
pub(crate) proof fn lemma_distinct_sort_keys_permuted(a: Seq<Param>, s: Seq<Param>)
    requires
        distinct_sort_keys(a),
        a.to_multiset() == s.to_multiset(),
    ensures
        distinct_sort_keys(s),
{
    broadcast use vstd::seq_lib::group_to_multiset_ensures;
    broadcast use vstd::multiset::group_multiset_axioms;

    lemma_distinct_sort_keys_names(a);
    lemma_no_duplicates(a);
    a.lemma_multiset_has_no_duplicates();
    s.lemma_multiset_has_no_duplicates_conv();
    assert forall|i: int, j: int| 0 <= i < j < s.len() implies sort_key(#[trigger] s[i].0)
        != sort_key(#[trigger] s[j].0) by {
        assert(s.contains(s[i]) && s.contains(s[j]));
        assert(s.to_multiset().count(s[i]) > 0 && s.to_multiset().count(s[j]) > 0);
        assert(a.contains(s[i]) && a.contains(s[j]));
        let x = choose|x: int| 0 <= x < a.len() && a[x] == s[i];
        let y = choose|y: int| 0 <= y < a.len() && a[y] == s[j];
        assert(s[i] != s[j]);
        if x < y {
            assert(sort_key(a[x].0) != sort_key(a[y].0));
        } else {
            assert(sort_key(a[y].0) != sort_key(a[x].0));
        }
    }
}

/// Two sorted lists that hold, for each sort key, the same parameters in the
/// same order are equal.
proof fn lemma_stable_sorted_equal(s: Seq<Param>, t: Seq<Param>)
    requires
        is_sorted(s),
        is_sorted(t),
        forall|key: Seq<u8>| #[trigger] with_sort_key(s, key) == with_sort_key(t, key),
    ensures
        s == t,
    decreases s.len(),
{
    reveal(Seq::filter);
    if s.len() == 0 {
        if t.len() > 0 {
            let key = sort_key(t.last().0);
            assert(with_sort_key(s, key) == with_sort_key(t, key));
        }
        assert(s =~= t);
    } else if t.len() == 0 {
        let key = sort_key(s.last().0);
        assert(with_sort_key(s, key) == with_sort_key(t, key));
    } else {
        let a = sort_key(s.last().0);
        let b = sort_key(t.last().0);
        lemma_key_not_after_last(t, s, a);
        lemma_key_not_after_last(s, t, b);
        ordering::lemma_bytes_le_antisymmetric(a, b);
        assert(with_sort_key(s, a).last() == s.last());
        assert(with_sort_key(t, a).last() == t.last());
        let s1 = s.drop_last();
        let t1 = t.drop_last();
        assert forall|key: Seq<u8>| #[trigger] with_sort_key(s1, key) == with_sort_key(
            t1,
            key,
        ) by {
            assert(with_sort_key(s, key) == with_sort_key(t, key));
            if key == a {
                assert(with_sort_key(s, key).drop_last() =~= with_sort_key(s1, key));
                assert(with_sort_key(t, key).drop_last() =~= with_sort_key(t1, key));
            }
        }
        lemma_sorted_front(s);
        lemma_sorted_front(t);
        lemma_stable_sorted_equal(s1, t1);
        assert(s =~= s1.push(s.last()));
        assert(t =~= t1.push(t.last()));
    }
}

/// The last sort key of `s` is not after that of the sorted list `t`, where
/// `t` holds the same parameters with that key.
proof fn lemma_key_not_after_last(t: Seq<Param>, s: Seq<Param>, key: Seq<u8>)
    requires
        s.len() > 0,
        t.len() > 0,
        key == sort_key(s.last().0),
        is_sorted(t),
        with_sort_key(s, key) == with_sort_key(t, key),
    ensures
        ordering::bytes_le(key, sort_key(t.last().0)),
{
    reveal(Seq::filter);
    let p = s.last();
    assert(with_sort_key(s, key).last() == p);
    assert(with_sort_key(t, key).contains(p));
    t.lemma_filter_contains_rev(|q: Param| sort_key(q.0) == key, p);
    assert(t.contains(p));
    let i = choose|i: int| 0 <= i < t.len() && t[i] == p;
    if i < t.len() - 1 {
        assert(param_le(t[i], t[t.len() - 1]));
    } else {
        ordering::lemma_bytes_le_reflexive(key);
    }
}

/// The signing order is the only list that is sorted and that holds, for each
/// sort key, the given parameters in the given order.
pub proof fn lemma_sorted_params_unique(params: Seq<Param>, t: Seq<Param>)
    requires
        is_sorted(t),
        forall|key: Seq<u8>| #[trigger] with_sort_key(t, key) == with_sort_key(params, key),
    ensures
        t == sorted_params(params),
{
    let s = sorted_params(params);
    lemma_sorted_params(params);
    assert forall|key: Seq<u8>| #[trigger] with_sort_key(s, key) == with_sort_key(t, key) by {
        lemma_sorted_params_stable(params, key);
        assert(with_sort_key(t, key) == with_sort_key(params, key));
    }
    lemma_stable_sorted_equal(s, t);
}

/// Setting a parameter is setting the value of its name, and of no other.
pub proof fn lemma_with_param_as_map(params: Seq<Param>, name: Seq<char>, value: Seq<char>)
    requires
        distinct_names(params),
    ensures
        distinct_names(with_param(params, name, value)),
        as_map(with_param(params, name, value)) == as_map(params).insert(name, value),
{
    let after = with_param(params, name, value);
    assert(distinct_names(after));
    lemma_as_map(params);
    lemma_as_map(after);
    let m = as_map(params).insert(name, value);
    if has_name(params, name) {
        let k = choose|k: int| 0 <= k < params.len() && #[trigger] params[k].0 == name;
        assert(after[k] == (name, value));
    } else {
        assert(after[params.len() as int] == (name, value));
    }
    assert(after.contains((name, value)));
    assert forall|n: Seq<char>|
        #![trigger as_map(after).dom().contains(n)]
        #![trigger m.dom().contains(n)]
        as_map(after).dom().contains(n) == m.dom().contains(n) && (m.dom().contains(n)
            ==> as_map(after)[n] == m[n]) by {
        if n != name {
            let p: Param = (n, as_map(params)[n]);
            let q: Param = (n, as_map(after)[n]);
            if as_map(params).dom().contains(n) {
                assert(params.contains(p));
                let i = choose|i: int| 0 <= i < params.len() && params[i] == p;
                assert(after[i] == p);
                assert(after.contains(p));
            }
            if as_map(after).dom().contains(n) {
                assert(after.contains(q));
                let i = choose|i: int| 0 <= i < after.len() && after[i] == q;
                assert(params[i] == q);
                assert(params.contains(q));
            }
        }
    }
    assert(as_map(after) =~= m);
}

/// The length and the first letter of each parameter name, by which the names
/// of one request differ.
pub(crate) proof fn lemma_name_shapes()
    ensures
        "MerchantID"@.len() == 10 && "MerchantID"@[0] == 'M',
        "MerchantTradeNo"@.len() == 15 && "MerchantTradeNo"@[0] == 'M',
        "MerchantTradeDate"@.len() == 17 && "MerchantTradeDate"@[0] == 'M',
        "PaymentType"@.len() == 11 && "PaymentType"@[0] == 'P',
        "TotalAmount"@.len() == 11 && "TotalAmount"@[0] == 'T',
        "TradeDesc"@.len() == 9 && "TradeDesc"@[0] == 'T',
        "ItemName"@.len() == 8 && "ItemName"@[0] == 'I',
        "ReturnURL"@.len() == 9 && "ReturnURL"@[0] == 'R',
        "ChoosePayment"@.len() == 13 && "ChoosePayment"@[0] == 'C',
        "EncryptType"@.len() == 11 && "EncryptType"@[0] == 'E',
        "TimeStamp"@.len() == 9 && "TimeStamp"@[0] == 'T',
        "TradeNo"@.len() == 7 && "TradeNo"@[0] == 'T',
        "Action"@.len() == 6 && "Action"@[0] == 'A',
{
    reveal_strlit("MerchantID");
    reveal_strlit("MerchantTradeNo");
    reveal_strlit("MerchantTradeDate");
    reveal_strlit("PaymentType");
    reveal_strlit("TotalAmount");
    reveal_strlit("TradeDesc");
    reveal_strlit("ItemName");
    reveal_strlit("ReturnURL");
    reveal_strlit("ChoosePayment");
    reveal_strlit("EncryptType");
    reveal_strlit("TimeStamp");
    reveal_strlit("TradeNo");
    reveal_strlit("Action");
}

/// An ASCII name sorts before another where, letter case aside, it is the
/// shorter beginning of the other or has the smaller letter at the first place
/// where they differ.
pub proof fn lemma_ascii_name_before(a: Seq<char>, b: Seq<char>, n: int)
    requires
        vstd::utf8::is_ascii_chars(a),
        vstd::utf8::is_ascii_chars(b),
        0 <= n <= a.len(),
        n < b.len(),
        forall|i: int|
            0 <= i < n ==> text::ascii_lower_char(#[trigger] a[i]) == text::ascii_lower_char(b[i]),
        n < a.len() ==> text::ascii_lower_char(a[n]) < text::ascii_lower_char(b[n]),
    ensures
        ordering::bytes_le(sort_key(a), sort_key(b)),
        sort_key(a) != sort_key(b),
{
    let x = text::ascii_lower(a);
    let y = text::ascii_lower(b);
    assert(vstd::utf8::is_ascii_chars(x));
    assert(vstd::utf8::is_ascii_chars(y));
    vstd::utf8::is_ascii_chars_encode_utf8(x);
    vstd::utf8::is_ascii_chars_encode_utf8(y);
    assert forall|i: int| 0 <= i < n implies #[trigger] sort_key(a)[i] == sort_key(b)[i] by {
        assert(x[i] == text::ascii_lower_char(a[i]) && y[i] == text::ascii_lower_char(b[i]));
        assert(text::ascii_lower_char(a[i]) == text::ascii_lower_char(b[i]));
        assert(sort_key(a)[i] == x[i] as u8 && sort_key(b)[i] == y[i] as u8);
    }
    if n < a.len() {
        assert(sort_key(a)[n] == x[n] as u8 && sort_key(b)[n] == y[n] as u8);
        assert(sort_key(a)[n] < sort_key(b)[n]);
    }
    ordering::lemma_bytes_le_at(sort_key(a), sort_key(b), n);
}

/// Each parameter of the list sorts before the next.
pub open spec fn neighbours_in_order(ps: Seq<Param>) -> bool {
    forall|i: int|
        0 <= i < ps.len() - 1 ==> {
            &&& param_le(#[trigger] ps[i], ps[i + 1])
            &&& sort_key(ps[i].0) != sort_key(ps[i + 1].0)
        }
}

/// A list in which each parameter sorts before the next is sorted, and neither
/// a name nor a sort key occurs twice in it.
pub proof fn lemma_sorted_by_neighbours(ps: Seq<Param>)
    requires
        neighbours_in_order(ps),
    ensures
        is_sorted(ps),
        distinct_sort_keys(ps),
        distinct_names(ps),
{
    assert forall|i: int, j: int| 0 <= i < j < ps.len() implies #[trigger] param_le(
        ps[i],
        ps[j],
    ) by {
        lemma_neighbours_chain(ps, i, j);
    }
    assert forall|i: int, j: int| 0 <= i < j < ps.len() implies sort_key(#[trigger] ps[i].0)
        != sort_key(#[trigger] ps[j].0) by {
        assert(param_le(ps[i], ps[i + 1]) && sort_key(ps[i].0) != sort_key(ps[i + 1].0));
        if i + 1 < j && sort_key(ps[i].0) == sort_key(ps[j].0) {
            lemma_neighbours_chain(ps, i + 1, j);
            ordering::lemma_bytes_le_antisymmetric(sort_key(ps[i].0), sort_key(ps[i + 1].0));
        }
    }
    lemma_distinct_sort_keys_names(ps);
}

/// Neighbours in order make a chain.
proof fn lemma_neighbours_chain(ps: Seq<Param>, i: int, j: int)
    requires
        neighbours_in_order(ps),
        0 <= i < j < ps.len(),
    ensures
        param_le(ps[i], ps[j]),
    decreases j - i,
{
    assert(param_le(ps[j - 1], ps[j - 1 + 1]));
    if i < j - 1 {
        lemma_neighbours_chain(ps, i, j - 1);
        ordering::lemma_bytes_le_transitive(
            sort_key(ps[i].0),
            sort_key(ps[j - 1].0),
            sort_key(ps[j].0),
        );
    }
}

/// A sorted list is in signing order.
pub proof fn lemma_sorted_fixed(ps: Seq<Param>)
    requires
        is_sorted(ps),
    ensures
        sorted_params(ps) == ps,
{
    lemma_sorted_params_unique(ps, ps);
}

/// Two lists without repetition that hold the same parameters are permutations
/// of each other.
proof fn lemma_same_multiset(a: Seq<Param>, b: Seq<Param>)
    requires
        a.no_duplicates(),
        b.no_duplicates(),
        forall|p: Param| a.contains(p) <==> b.contains(p),
    ensures
        a.to_multiset() == b.to_multiset(),
{
    broadcast use vstd::seq_lib::group_to_multiset_ensures;
    broadcast use vstd::multiset::group_multiset_axioms;

    a.lemma_multiset_has_no_duplicates();
    b.lemma_multiset_has_no_duplicates();
    assert forall|p: Param| a.to_multiset().count(p) == b.to_multiset().count(p) by {
        assert(a.contains(p) <==> b.contains(p));
        assert(a.contains(p) <==> a.to_multiset().count(p) > 0);
        assert(b.contains(p) <==> b.to_multiset().count(p) > 0);
        assert(a.to_multiset().contains(p) ==> a.to_multiset().count(p) == 1);
        assert(b.to_multiset().contains(p) ==> b.to_multiset().count(p) == 1);
    }
    assert(a.to_multiset() =~= b.to_multiset());
}

/// A list of the same parameters in which each sorts before the next is their
/// signing order.
pub proof fn lemma_signing_order(params: Seq<Param>, ordered: Seq<Param>)
    requires
        params.len() == ordered.len(),
        forall|i: int| 0 <= i < ordered.len() ==> params.contains(#[trigger] ordered[i]),
        neighbours_in_order(ordered),
    ensures
        sorted_params(params) == ordered,
{
    lemma_sorted_by_neighbours(ordered);
    lemma_no_duplicates(ordered);
    let x = ordered.to_set();
    let y = params.to_set();
    vstd::seq_lib::seq_to_set_is_finite(ordered);
    vstd::seq_lib::seq_to_set_is_finite(params);
    ordered.unique_seq_to_set();
    params.lemma_cardinality_of_set();
    assert(x.subset_of(y)) by {
        assert forall|p: Param| x.contains(p) implies y.contains(p) by {
            let i = choose|i: int| 0 <= i < ordered.len() && ordered[i] == p;
            assert(params.contains(ordered[i]));
        }
    }
    vstd::set_lib::lemma_len_subset(x, y);
    vstd::set_lib::lemma_subset_equality(x, y);
    params.lemma_no_dup_set_cardinality();
    assert forall|p: Param| params.contains(p) <==> ordered.contains(p) by {
        assert(x.contains(p) == ordered.contains(p));
        assert(y.contains(p) == params.contains(p));
    }
    lemma_same_multiset(params, ordered);
    lemma_sorted_params(params);
    lemma_sorted_unique(ordered, sorted_params(params));
}

/// Of two parameters in signing order, the bytes of the first one's name in small
/// letters are not behind those of the second: where they first differ, the first
/// has the smaller byte, or it ends there.
pub proof fn lemma_signing_order_bytes(params: Seq<Param>, i: int, j: int, n: int)
    requires
        0 <= i < j < sorted_params(params).len(),
        0 <= n,
        n <= vstd::utf8::encode_utf8(text::lowered(sorted_params(params)[i].0)).len(),
        n <= vstd::utf8::encode_utf8(text::lowered(sorted_params(params)[j].0)).len(),
        vstd::utf8::encode_utf8(text::lowered(sorted_params(params)[i].0)).take(n)
            == vstd::utf8::encode_utf8(text::lowered(sorted_params(params)[j].0)).take(n),
    ensures
        ({
            let x = vstd::utf8::encode_utf8(text::lowered(sorted_params(params)[i].0));
            let y = vstd::utf8::encode_utf8(text::lowered(sorted_params(params)[j].0));
            &&& n < x.len() && n < y.len() ==> x[n] <= y[n]
            &&& n == y.len() ==> n == x.len()
        }),
{
    let s = sorted_params(params);
    let x = vstd::utf8::encode_utf8(text::lowered(s[i].0));
    let y = vstd::utf8::encode_utf8(text::lowered(s[j].0));
    lemma_sorted_params(params);
    assert(param_le(s[i], s[j]));
    assert(ordering::bytes_le(x, y));
    assert forall|k: int| 0 <= k < n implies #[trigger] y[k] == x[k] by {
        assert(x.take(n)[k] == y.take(n)[k]);
    }
    if (n < x.len() && n < y.len() && x[n] > y[n]) || (n == y.len() && n < x.len()) {
        ordering::lemma_bytes_le_at(y, x, n);
        ordering::lemma_bytes_le_antisymmetric(x, y);
    }
}

/// Signing order holds every parameter as often as it was given, and those whose
/// names are the same in small letters in the order in which they were given.
pub proof fn lemma_signing_order_keeps(params: Seq<Param>, small: Seq<char>)
    ensures
        sorted_params(params).to_multiset() == params.to_multiset(),
        sorted_params(params).filter(|p: (Seq<char>, Seq<char>)| text::lowered(p.0) == small)
            == params.filter(|p: (Seq<char>, Seq<char>)| text::lowered(p.0) == small),
{
    broadcast use vstd::utf8::encode_utf8_decode_utf8;

    let key = vstd::utf8::encode_utf8(small);
    lemma_sorted_params(params);
    lemma_sorted_params_stable(params, key);
    let by_key = |p: Param| sort_key(p.0) == key;
    let by_name = |p: (Seq<char>, Seq<char>)| text::lowered(p.0) == small;
    assert forall|p: Param| #[trigger] by_key(p) == by_name(p) by {
        assert(vstd::utf8::decode_utf8(sort_key(p.0)) == text::lowered(p.0));
        assert(vstd::utf8::decode_utf8(key) == small);
    }
    assert(by_key =~= by_name);
}

/// Setting a parameter gives its value to the one parameter of that name, or puts
/// it behind the last where there is none, and leaves the others in their places.
pub proof fn lemma_with_param_places(params: Seq<Param>, name: Seq<char>, value: Seq<char>)
    ensures
        ({
            let after = with_param(params, name, value);
            &&& forall|i: int|
                0 <= i < params.len() ==> (#[trigger] after[i]) == (if params[i].0 == name {
                    (name, value)
                } else {
                    params[i]
                })
            &&& if exists|i: int| 0 <= i < params.len() && (#[trigger] params[i]).0 == name {
                after.len() == params.len()
            } else {
                after.len() == params.len() + 1 && after.last() == (name, value)
            }
        }),
{
    if exists|i: int| 0 <= i < params.len() && (#[trigger] params[i]).0 == name {
        let i = choose|i: int| 0 <= i < params.len() && (#[trigger] params[i]).0 == name;
        assert(params[i].0 == name);
        assert(has_name(params, name));
    }
}

/// A new map holds nothing.
pub proof fn lemma_new_param_map(r: ParamMap)
    requires
        call_ensures(ParamMap::new, (), r),
    ensures
        r@.len() == 0,
{
}

/// Setting a parameter in a map gives its value to the one parameter of that name,
/// or puts it behind the last where there is none, and leaves every other in its
/// place; no name occurs twice in what comes of it.
pub proof fn lemma_insert_param(map: &mut ParamMap, name: String, value: String)
    requires
        call_ensures(ParamMap::insert, (map, name, value), ()),
    ensures
        forall|i: int|
            0 <= i < old(map)@.len() ==> (#[trigger] final(map)@[i]) == (if old(map)@[i].0
                == name@ {
                (name@, value@)
            } else {
                old(map)@[i]
            }),
        (exists|i: int| 0 <= i < old(map)@.len() && (#[trigger] old(map)@[i]).0 == name@)
            ==> final(map)@.len() == old(map)@.len(),
        (forall|i: int| 0 <= i < old(map)@.len() ==> (#[trigger] old(map)@[i]).0 != name@)
            ==> final(map)@ == old(map)@.push((name@, value@)),
        forall|i: int, j: int|
            0 <= i < j < final(map)@.len() ==> (#[trigger] final(map)@[i]).0 != (
            #[trigger] final(map)@[j]).0,
{
    lemma_with_param_places(old(map)@, name@, value@);
}

} // verus!
