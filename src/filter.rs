use vstd::prelude::*;

use crate::codec::{has_key, keys_unique, str_eq, EnvMap};

verus! {

/// A list of strings, seen as character sequences.
pub open spec fn strings_view(v: Seq<String>) -> Seq<Seq<char>> {
    v.map_values(|s: String| s@)
}

/// A list of strings that may be absent, seen as character sequences.
pub open spec fn opt_strings_view(o: Option<Vec<String>>) -> Option<Seq<Seq<char>>> {
    match o {
        Some(v) => Some(strings_view(v@)),
        None => None,
    }
}

/// The entries for which "the key is listed" is `want`, in their order.
pub open spec fn kept_listed(
    s: Seq<(Seq<char>, Seq<char>)>,
    keys: Seq<Seq<char>>,
    want: bool,
) -> Seq<(Seq<char>, Seq<char>)> {
    s.filter(|p: (Seq<char>, Seq<char>)| keys.contains(p.0) == want)
}

/// The entries whose key is listed, in their order.
pub open spec fn kept_only(
    s: Seq<(Seq<char>, Seq<char>)>,
    keys: Seq<Seq<char>>,
) -> Seq<(Seq<char>, Seq<char>)> {
    kept_listed(s, keys, true)
}

/// The entries whose key is not listed, in their order.
pub open spec fn kept_exclude(
    s: Seq<(Seq<char>, Seq<char>)>,
    keys: Seq<Seq<char>>,
) -> Seq<(Seq<char>, Seq<char>)> {
    kept_listed(s, keys, false)
}

/// The inclusion list where it is given, then the exclusion list where it
/// is given.
pub open spec fn applied(
    s: Seq<(Seq<char>, Seq<char>)>,
    only: Option<Seq<Seq<char>>>,
    exclude: Option<Seq<Seq<char>>>,
) -> Seq<(Seq<char>, Seq<char>)> {
    let kept = match only {
        Some(o) => kept_only(s, o),
        None => s,
    };
    match exclude {
        Some(e) => kept_exclude(kept, e),
        None => kept,
    }
}

/// Keeping a part of the entries keeps their keys unique.
pub proof fn lemma_filter_keeps_unique(
    s: Seq<(Seq<char>, Seq<char>)>,
    pred: spec_fn((Seq<char>, Seq<char>)) -> bool,
)
    requires
        keys_unique(s),
    ensures
        keys_unique(s.filter(pred)),
    decreases s.len(),
{
    reveal(Seq::filter);
    if s.len() > 0 {
        let d = s.drop_last();
        assert(keys_unique(d));
        lemma_filter_keeps_unique(d, pred);
        let f = d.filter(pred);
        if pred(s.last()) {
            assert forall|i: int| 0 <= i < f.len() implies #[trigger] f[i].0 != s.last().0 by {
                assert(f.contains(f[i]));
                d.lemma_filter_contains_rev(pred, f[i]);
                let j = choose|j: int| 0 <= j < d.len() && d[j] == f[i];
                assert(s[j] == d[j]);
                assert(s[s.len() - 1] == s.last());
            }
            let g = f.push(s.last());
            assert forall|i: int, j: int|
                0 <= i < g.len() && 0 <= j < g.len() && i != j implies #[trigger] g[i].0
                != #[trigger] g[j].0 by {
                if i < f.len() && j < f.len() {
                } else if i < f.len() {
                    assert(g[j] == s.last());
                } else {
                    assert(g[i] == s.last());
                }
            }
        }
    }
}

/// The string is one of the listed ones.
pub fn listed(keys: &Vec<String>, k: &str) -> (r: bool)
    ensures
        r == strings_view(keys@).contains(k@),
{
    let mut i: usize = 0;
    while i < keys.len()
        invariant
            i <= keys@.len(),
            forall|j: int| 0 <= j < i ==> keys@[j]@ != k@,
        decreases keys.len() - i,
    {
        if str_eq(keys[i].as_str(), k) {
            assert(strings_view(keys@)[i as int] == k@);
            return true;
        }
        i = i + 1;
    }
    assert forall|j: int| 0 <= j < strings_view(keys@).len() implies strings_view(keys@)[j]
        != k@ by {
        assert(strings_view(keys@)[j] == keys@[j]@);
    }
    false
}

/// The entries of `m` for which "the key is listed in `keys`" is `want`,
/// in their order.
fn keep_listed(m: &EnvMap, keys: &Vec<String>, want: bool) -> (r: EnvMap)
    requires
        m.wf(),
    ensures
        r.wf(),
        r@ == kept_listed(m@, strings_view(keys@), want),
{
    let ghost pred = |p: (Seq<char>, Seq<char>)| strings_view(keys@).contains(p.0) == want;
    let mut out = EnvMap::new();
    let mut i: usize = 0;
    while i < m.len()
        invariant
            m.wf(),
            i <= m@.len(),
            out.wf(),
            out@ == m@.take(i as int).filter(pred),
            pred == (|p: (Seq<char>, Seq<char>)| strings_view(keys@).contains(p.0) == want),
        decreases m@.len() - i,
    {
        let k = m.key_at(i);
        let ghost t = m@.take(i + 1);
        proof {
            assert(t.drop_last() =~= m@.take(i as int));
            assert(t.last() == m@[i as int]);
            assert(t.len() > 0);
            reveal(Seq::filter);
            assert(t.filter(pred) == if pred(t.last()) {
                out@.push(t.last())
            } else {
                out@
            });
        }
        if listed(keys, k.as_str()) == want {
            let v = m.value_at(i);
            proof {
                lemma_filter_keeps_unique(t, pred);
                assert(!has_key(out@, k@)) by {
                    if has_key(out@, k@) {
                        let j = choose|j: int| 0 <= j < out@.len() && #[trigger] out@[j].0 == k@;
                        assert(t.filter(pred)[j].0 == t.filter(pred)[out@.len() as int].0);
                    }
                }
            }
            out.insert(k, v);
        }
        i = i + 1;
    }
    assert(m@.take(i as int) =~= m@);
    out
}

/// The entries whose key is in `only_keys`, in their order.
pub fn filter_env_contents(env_contents: EnvMap, only_keys: &Vec<String>) -> (r: EnvMap)
    requires
        env_contents.wf(),
    ensures
        r.wf(),
        r@ == kept_only(env_contents@, strings_view(only_keys@)),
{
    keep_listed(&env_contents, only_keys, true)
}

/// The entries whose key is not in `exclude_keys`, in their order.
pub fn exclude_env_contents(env_contents: EnvMap, exclude_keys: &Vec<String>) -> (r: EnvMap)
    requires
        env_contents.wf(),
    ensures
        r.wf(),
        r@ == kept_exclude(env_contents@, strings_view(exclude_keys@)),
{
    keep_listed(&env_contents, exclude_keys, false)
}

/// Applies the inclusion list, if any, and then the exclusion list, if any.
pub fn apply_only_exclude(
    parsed_env: EnvMap,
    only: &Option<Vec<String>>,
    exclude: &Option<Vec<String>>,
) -> (r: EnvMap)
    requires
        parsed_env.wf(),
    ensures
        r.wf(),
        r@ == applied(parsed_env@, opt_strings_view(*only), opt_strings_view(*exclude)),
{
    let kept = match only {
        Some(only_keys) => filter_env_contents(parsed_env, only_keys),
        None => parsed_env,
    };
    match exclude {
        Some(exclude_keys) => exclude_env_contents(kept, exclude_keys),
        None => kept,
    }
}

/// With no key listed, "the key is listed" is `false` for every entry: the
/// entries kept are those asked for with `false`, which is all or none.
proof fn lemma_kept_none_listed(s: Seq<(Seq<char>, Seq<char>)>, want: bool)
    ensures
        kept_listed(s, Seq::empty(), want) == (if want {
            Seq::empty()
        } else {
            s
        }),
    decreases s.len(),
{
    reveal(Seq::filter);
    if s.len() > 0 {
        lemma_kept_none_listed(s.drop_last(), want);
        assert(!Seq::<Seq<char>>::empty().contains(s.last().0));
        if !want {
            assert(s.drop_last().push(s.last()) =~= s);
        }
    }
}

/// Filters compose left to right: applying the inclusion list and then, in
/// a second step, the exclusion list gives what one step with both gives.
pub proof fn lemma_filters_compose(
    s: Seq<(Seq<char>, Seq<char>)>,
    only: Option<Seq<Seq<char>>>,
    exclude: Option<Seq<Seq<char>>>,
)
    ensures
        applied(applied(s, only, None), None, exclude) == applied(s, only, exclude),
{
}

/// An empty inclusion list keeps nothing; an empty exclusion list removes
/// nothing.
pub proof fn lemma_empty_lists(s: Seq<(Seq<char>, Seq<char>)>)
    ensures
        applied(s, Some(Seq::empty()), None) == Seq::<(Seq<char>, Seq<char>)>::empty(),
        applied(s, None, Some(Seq::empty())) == s,
{
    lemma_kept_none_listed(s, true);
    lemma_kept_none_listed(s, false);
}

} // verus!
