use vstd::prelude::*;

verus! {

/// Whether some entry of `v` has the name `name`.
pub open spec fn has_name<T>(v: Seq<(String, T)>, name: Seq<char>) -> bool {
    exists|i: int| 0 <= i < v.len() && (#[trigger] v[i]).0@ == name
}

/// Whether no two entries of `v` share a name.
pub open spec fn names_unique<T>(v: Seq<(String, T)>) -> bool {
    forall|i: int, j: int|
        0 <= i < v.len() && 0 <= j < v.len() && (#[trigger] v[i]).0@ == (#[trigger] v[j]).0@
            ==> i == j
}

/// The index of an entry of `v` named `name`.
pub open spec fn index_of<T>(v: Seq<(String, T)>, name: Seq<char>) -> int {
    choose|i: int| 0 <= i < v.len() && (#[trigger] v[i]).0@ == name
}

/// The entries of `v` as a map from name to the view of the value.
pub open spec fn table_view<T: View>(v: Seq<(String, T)>) -> Map<Seq<char>, T::V> {
    Map::new(|k: Seq<char>| has_name(v, k), |k: Seq<char>| v[index_of(v, k)].1@)
}

/// In a table with unique names, the entry at `i` is what its name maps to.
pub proof fn lemma_table_entry<T: View>(v: Seq<(String, T)>, i: int)
    requires
        names_unique(v),
        0 <= i < v.len(),
    ensures
        table_view(v).contains_key(v[i].0@),
        table_view(v)[v[i].0@] == v[i].1@,
{
    assert(has_name(v, v[i].0@));
    let j = index_of(v, v[i].0@);
    assert(v[j].0@ == v[i].0@);
}

/// Adding an entry under a new name extends the map by that name.
pub proof fn lemma_table_push<T: View>(v: Seq<(String, T)>, name: String, t: T)
    requires
        names_unique(v),
        !has_name(v, name@),
    ensures
        names_unique(v.push((name, t))),
        table_view(v.push((name, t))) == table_view(v).insert(name@, t@),
{
    let w = v.push((name, t));
    assert forall|i: int, j: int|
        0 <= i < w.len() && 0 <= j < w.len() && (#[trigger] w[i]).0@ == (#[trigger] w[j]).0@
        implies i == j by {
        if i < v.len() && j == v.len() {
            assert(v[i].0@ == name@);
        } else if j < v.len() && i == v.len() {
            assert(v[j].0@ == name@);
        } else if i < v.len() && j < v.len() {
            assert(v[i] == w[i] && v[j] == w[j]);
        }
    }
    assert forall|k: Seq<char>| #[trigger] has_name(w, k) == (has_name(v, k) || k == name@) by {
        if has_name(v, k) {
            let i = index_of(v, k);
            assert(w[i] == v[i]);
        }
        if k == name@ {
            assert(w[v.len() as int] == (name, t));
        }
        if has_name(w, k) && k != name@ {
            let i = index_of(w, k);
            assert(i < v.len());
            assert(v[i] == w[i]);
        }
    }
    assert forall|k: Seq<char>| has_name(w, k) implies #[trigger] table_view(w)[k] == table_view(
        v,
    ).insert(name@, t@)[k] by {
        let i = index_of(w, k);
        if k == name@ {
            assert(w[v.len() as int].0@ == name@);
            assert(i == v.len());
        } else {
            let j = index_of(v, k);
            assert(w[j] == v[j]);
            assert(i == j);
        }
    }
    assert(table_view(w) =~= table_view(v).insert(name@, t@));
}

/// Replacing the entry at `j`, under its own name, sets what that name maps to.
pub proof fn lemma_table_replace<T: View>(v: Seq<(String, T)>, j: int, name: String, t: T)
    requires
        names_unique(v),
        0 <= j < v.len(),
        v[j].0@ == name@,
    ensures
        names_unique(v.update(j, (name, t))),
        table_view(v.update(j, (name, t))) == table_view(v).insert(name@, t@),
{
    let w = v.update(j, (name, t));
    assert forall|a: int, b: int|
        0 <= a < w.len() && 0 <= b < w.len() && (#[trigger] w[a]).0@ == (#[trigger] w[b]).0@
        implies a == b by {
        assert(w[a].0@ == v[a].0@ && w[b].0@ == v[b].0@);
        assert(v[a].0@ == v[b].0@);
    }
    assert forall|k: Seq<char>| #[trigger] has_name(w, k) == has_name(v, k) by {
        if has_name(v, k) {
            let i = index_of(v, k);
            assert(w[i].0@ == v[i].0@);
        }
        if has_name(w, k) {
            let i = index_of(w, k);
            assert(w[i].0@ == v[i].0@);
        }
    }
    assert(has_name(v, name@)) by {
        assert(v[j].0@ == name@);
    }
    assert forall|k: Seq<char>| has_name(w, k) implies #[trigger] table_view(w)[k] == table_view(
        v,
    ).insert(name@, t@)[k] by {
        let i = index_of(w, k);
        assert(w[i].0@ == v[i].0@);
        if k == name@ {
            assert(v[j].0@ == v[i].0@);
            assert(i == j);
        } else {
            let i2 = index_of(v, k);
            assert(w[i2].0@ == v[i2].0@);
            assert(i != j);
            assert(i == i2);
        }
    }
    assert(table_view(w) =~= table_view(v).insert(name@, t@));
}

/// The index of the entry of `v` named `name`, if there is one.
pub(crate) fn position<T>(v: &Vec<(String, T)>, name: &String) -> (r: Option<usize>)
    ensures
        match r {
            Some(j) => j < v@.len() && v@[j as int].0@ == name@,
            None => !has_name(v@, name@),
        },
{
    let mut i: usize = 0;
    while i < v.len()
        invariant
            0 <= i <= v@.len(),
            forall|j: int| 0 <= j < i ==> (#[trigger] v@[j]).0@ != name@,
        decreases v@.len() - i,
    {
        if v[i].0 == *name {
            return Some(i);
        }
        i = i + 1;
    }
    None
}

/// Sets what `name` maps to in the table `v`: the entry of that name is
/// replaced, or a new one is added.
pub fn insert_named<T: View>(v: &mut Vec<(String, T)>, name: String, t: T)
    requires
        names_unique(old(v)@),
    ensures
        names_unique(final(v)@),
        table_view(final(v)@) == table_view(old(v)@).insert(name@, t@),
{
    match position(v, &name) {
        Some(j) => {
            proof {
                lemma_table_replace(v@, j as int, name, t);
            }
            v[j] = (name, t);
        },
        None => {
            proof {
                lemma_table_push(v@, name, t);
            }
            v.push((name, t));
        },
    }
}

/// The value of the first entry of `v` named `name`. Where names are unique
/// it is what the table maps `name` to.
pub fn find_named<'a, T: View>(v: &'a Vec<(String, T)>, name: &str) -> (r: Option<&'a T>)
    ensures
        r is Some <==> table_view(v@).contains_key(name@),
        match r {
            Some(t) => names_unique(v@) ==> table_view(v@)[name@] == t@,
            None => true,
        },
{
    let wanted = name.to_owned();
    match position(v, &wanted) {
        Some(j) => {
            proof {
                assert(has_name(v@, name@));
                if names_unique(v@) {
                    lemma_table_entry(v@, j as int);
                }
            }
            Some(&v[j].1)
        },
        None => None,
    }
}

/// Whether the tables `a` and `b` hold the same names, and every two entries
/// of one name, one from each, have equal values.
pub open spec fn same_table<T: View>(a: Seq<(String, T)>, b: Seq<(String, T)>) -> bool {
    &&& forall|i: int| 0 <= i < a.len() ==> has_name(b, (#[trigger] a[i]).0@)
    &&& forall|j: int| 0 <= j < b.len() ==> has_name(a, (#[trigger] b[j]).0@)
    &&& forall|i: int, j: int|
        0 <= i < a.len() && 0 <= j < b.len() && (#[trigger] a[i]).0@ == (#[trigger] b[j]).0@
            ==> a[i].1@ == b[j].1@
}

/// Tables that agree entry by entry have equal maps; for tables with unique
/// names the converse holds too.
pub proof fn lemma_same_table<T: View>(a: Seq<(String, T)>, b: Seq<(String, T)>)
    ensures
        same_table(a, b) ==> table_view(a) == table_view(b),
        names_unique(a) && names_unique(b) && table_view(a) == table_view(b) ==> same_table(a, b),
{
    if same_table(a, b) {
        assert forall|k: Seq<char>| #[trigger] has_name(a, k) == has_name(b, k) by {
            if has_name(a, k) {
                let i = index_of(a, k);
                assert(has_name(b, a[i].0@));
            }
            if has_name(b, k) {
                let j = index_of(b, k);
                assert(has_name(a, b[j].0@));
            }
        }
        assert forall|k: Seq<char>| has_name(a, k) implies #[trigger] table_view(a)[k] == table_view(
            b,
        )[k] by {
            let i = index_of(a, k);
            let j = index_of(b, k);
            assert(a[i].0@ == b[j].0@);
        }
        assert(table_view(a) =~= table_view(b));
    }
    if names_unique(a) && names_unique(b) && table_view(a) == table_view(b) {
        assert forall|i: int| 0 <= i < a.len() implies has_name(b, (#[trigger] a[i]).0@) by {
            lemma_table_entry(a, i);
        }
        assert forall|j: int| 0 <= j < b.len() implies has_name(a, (#[trigger] b[j]).0@) by {
            lemma_table_entry(b, j);
        }
        assert forall|i: int, j: int|
            0 <= i < a.len() && 0 <= j < b.len() && (#[trigger] a[i]).0@ == (#[trigger] b[j]).0@
            implies a[i].1@ == b[j].1@ by {
            lemma_table_entry(a, i);
            lemma_table_entry(b, j);
        }
    }
}

/// Values that can be compared by their views.
pub trait ViewEq: View + Sized {
    fn view_eq(&self, other: &Self) -> (r: bool)
        ensures
            r == (self@ == other@),
    ;
}

/// Whether the tables `a` and `b` agree entry by entry.
pub fn tables_agree<T: ViewEq>(a: &Vec<(String, T)>, b: &Vec<(String, T)>) -> (r: bool)
    ensures
        r == same_table(a@, b@),
{
    let mut i: usize = 0;
    while i < a.len()
        invariant
            0 <= i <= a@.len(),
            forall|i2: int| 0 <= i2 < i ==> has_name(b@, (#[trigger] a@[i2]).0@),
            forall|i2: int, j: int|
                0 <= i2 < i && 0 <= j < b@.len() && (#[trigger] a@[i2]).0@ == (#[trigger] b@[j]).0@
                    ==> a@[i2].1@ == b@[j].1@,
        decreases a@.len() - i,
    {
        let mut found = false;
        let mut j: usize = 0;
        while j < b.len()
            invariant
                0 <= i < a@.len(),
                0 <= j <= b@.len(),
                found ==> has_name(b@, a@[i as int].0@),
                !found ==> forall|j2: int| 0 <= j2 < j ==> (#[trigger] b@[j2]).0@ != a@[i as int].0@,
                forall|j2: int|
                    0 <= j2 < j && (#[trigger] b@[j2]).0@ == a@[i as int].0@ ==> a@[i as int].1@
                        == b@[j2].1@,
            decreases b@.len() - j,
        {
            if a[i].0 == b[j].0 {
                found = true;
                if !a[i].1.view_eq(&b[j].1) {
                    return false;
                }
            }
            j = j + 1;
        }
        if !found {
            proof {
                if has_name(b@, a@[i as int].0@) {
                    let k = index_of(b@, a@[i as int].0@);
                    assert(b@[k].0@ != a@[i as int].0@);
                }
            }
            return false;
        }
        i = i + 1;
    }
    let mut j: usize = 0;
    while j < b.len()
        invariant
            0 <= j <= b@.len(),
            forall|i2: int| 0 <= i2 < a@.len() ==> has_name(b@, (#[trigger] a@[i2]).0@),
            forall|i2: int, j2: int|
                0 <= i2 < a@.len() && 0 <= j2 < b@.len() && (#[trigger] a@[i2]).0@ == (
                #[trigger] b@[j2]).0@ ==> a@[i2].1@ == b@[j2].1@,
            forall|j2: int| 0 <= j2 < j ==> has_name(a@, (#[trigger] b@[j2]).0@),
        decreases b@.len() - j,
    {
        if position(a, &b[j].0).is_none() {
            return false;
        }
        j = j + 1;
    }
    true
}

} // verus!
