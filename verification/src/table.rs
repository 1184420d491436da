use vstd::prelude::*;

verus! {

// Name-keyed tables: association lists read from the front and updated in
// place, so that a binding written earlier shadows any duplicate behind it
// and the list behaves as a map.

/// The value bound to `k`, reading from the front.
pub open spec fn assoc_get<V>(s: Seq<(Seq<char>, V)>, k: Seq<char>) -> Option<V>
    decreases s,
{
    if s.len() == 0 {
        None
    } else if s[0].0 == k {
        Some(s[0].1)
    } else {
        assoc_get(s.drop_first(), k)
    }
}

/// The table with `k` bound to `v`: the frontmost binding of `k` is
/// replaced, or a new binding is appended.
pub open spec fn assoc_set<V>(s: Seq<(Seq<char>, V)>, k: Seq<char>, v: V) -> Seq<(Seq<char>, V)>
    decreases s,
{
    if s.len() == 0 {
        seq![(k, v)]
    } else if s[0].0 == k {
        seq![(k, v)] + s.drop_first()
    } else {
        seq![s[0]] + assoc_set(s.drop_first(), k, v)
    }
}


/// A found index characterises `assoc_get`.
pub proof fn lemma_assoc_get_at<V>(s: Seq<(Seq<char>, V)>, k: Seq<char>, i: int)
    requires
        0 <= i < s.len(),
        s[i].0 == k,
        forall|j: int| 0 <= j < i ==> (#[trigger] s[j]).0 != k,
    ensures
        assoc_get(s, k) == Some(s[i].1),
    decreases i,
{
    if i > 0 {
        lemma_assoc_get_at(s.drop_first(), k, i - 1);
    }
}

/// Absence of the key characterises `assoc_get`.
pub proof fn lemma_assoc_get_none<V>(s: Seq<(Seq<char>, V)>, k: Seq<char>)
    requires
        forall|j: int| 0 <= j < s.len() ==> (#[trigger] s[j]).0 != k,
    ensures
        assoc_get(s, k) is None,
    decreases s,
{
    if s.len() > 0 {
        lemma_assoc_get_none(s.drop_first(), k);
    }
}

/// A found index characterises `assoc_set` as an in-place update.
pub proof fn lemma_assoc_set_at<V>(s: Seq<(Seq<char>, V)>, k: Seq<char>, v: V, i: int)
    requires
        0 <= i < s.len(),
        s[i].0 == k,
        forall|j: int| 0 <= j < i ==> (#[trigger] s[j]).0 != k,
    ensures
        assoc_set(s, k, v) =~= s.update(i, (k, v)),
    decreases i,
{
    if i == 0 {
        assert(seq![(k, v)] + s.drop_first() =~= s.update(0, (k, v)));
    } else {
        lemma_assoc_set_at(s.drop_first(), k, v, i - 1);
        assert(seq![s[0]] + s.drop_first().update(i - 1, (k, v)) =~= s.update(i, (k, v)));
    }
}

/// Absence of the key characterises `assoc_set` as an append.
pub proof fn lemma_assoc_set_none<V>(s: Seq<(Seq<char>, V)>, k: Seq<char>, v: V)
    requires
        forall|j: int| 0 <= j < s.len() ==> (#[trigger] s[j]).0 != k,
    ensures
        assoc_set(s, k, v) =~= s.push((k, v)),
    decreases s,
{
    if s.len() > 0 {
        lemma_assoc_set_none(s.drop_first(), k, v);
        assert(seq![s[0]] + s.drop_first().push((k, v)) =~= s.push((k, v)));
    }
}

/// The frontmost index at which a key is bound, if any.
pub fn assoc_find<V>(env: &Vec<(String, V)>, k: &str) -> (r: Option<usize>)
    ensures
        match r {
            Some(i) => i < env@.len() && env@[i as int].0@ == k@ && forall|j: int|
                0 <= j < i ==> (#[trigger] env@[j]).0@ != k@,
            None => forall|j: int| 0 <= j < env@.len() ==> (#[trigger] env@[j]).0@ != k@,
        },
{
    let mut i: usize = 0;
    while i < env.len()
        invariant
            i <= env@.len(),
            forall|j: int| 0 <= j < i ==> (#[trigger] env@[j]).0@ != k@,
        decreases env@.len() - i,
    {
        if crate::strutil::str_eq(env[i].0.as_str(), k) {
            return Some(i);
        }
        i = i + 1;
    }
    None
}


/// Borrows the value bound to `k`, if any.
pub fn assoc_get_ref<'a, V: DeepView>(env: &'a Vec<(String, V)>, k: &str) -> (r: Option<&'a V>)
    ensures
        match r {
            Some(v) => assoc_get(env.deep_view(), k@) == Some(v.deep_view()),
            None => assoc_get(env.deep_view(), k@) is None,
        },
{
    proof {
        let dv = env.deep_view();
        assert(forall|j: int| 0 <= j < env@.len() ==> (#[trigger] dv[j]).0 == env@[j].0@);
    }
    match assoc_find(env, k) {
        Some(i) => {
            proof {
                lemma_assoc_get_at(env.deep_view(), k@, i as int);
            }
            Some(&env[i].1)
        },
        None => {
            proof {
                lemma_assoc_get_none(env.deep_view(), k@);
            }
            None
        },
    }
}

/// Binds `k` to `v`: replaces the frontmost binding or appends a new one.
pub fn assoc_update<V: DeepView>(env: &mut Vec<(String, V)>, k: String, v: V)
    ensures
        final(env).deep_view() == assoc_set(old(env).deep_view(), k@, v.deep_view()),
{
    let ghost dv = env.deep_view();
    proof {
        assert(forall|j: int| 0 <= j < env@.len() ==> (#[trigger] dv[j]).0 == env@[j].0@);
    }
    match assoc_find(env, k.as_str()) {
        Some(i) => {
            let ghost vd = v.deep_view();
            let ghost kd = k@;
            env.set(i, (k, v));
            proof {
                lemma_assoc_set_at(dv, kd, vd, i as int);
                assert(env.deep_view() =~= dv.update(i as int, (kd, vd)));
            }
        },
        None => {
            let ghost vd = v.deep_view();
            let ghost kd = k@;
            env.push((k, v));
            proof {
                lemma_assoc_set_none(dv, kd, vd);
                assert(env.deep_view() =~= dv.push((kd, vd)));
            }
        },
    }
}

} // verus!
