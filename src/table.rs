use vstd::prelude::*;

verus! {

/// One registered interest: events on `(source, object)` are wanted, with
/// `events` as the watch mask and `user` handed back with each delivery.
#[derive(Clone, Copy, Debug, PartialEq, Eq, Structural)]
pub struct Association {
    pub source: i32,
    pub object: usize,
    pub events: i32,
    pub user: usize,
}

impl Association {
    pub open spec fn key(self) -> (i32, usize) {
        (self.source, self.object)
    }

    pub open spec fn value(self) -> (i32, usize) {
        (self.events, self.user)
    }
}

/// An association table as a map from `(source, object)` to `(mask, user)`.
pub type TableModel = Map<(i32, usize), (i32, usize)>;

/// No two entries of the table share a key.
pub open spec fn keys_unique(s: Seq<Association>) -> bool {
    forall|i: int, j: int| 0 <= i < j < s.len() ==> s[i].key() != s[j].key()
}

/// The map that a sequence of entries stands for.
pub open spec fn table_map(s: Seq<Association>) -> TableModel
    decreases s.len(),
{
    if s.len() == 0 {
        Map::empty()
    } else {
        table_map(s.drop_last()).insert(s.last().key(), s.last().value())
    }
}

pub proof fn lemma_table_contains(s: Seq<Association>, k: (i32, usize))
    ensures
        table_map(s).contains_key(k) <==> exists|i: int| 0 <= i < s.len() && s[i].key() == k,
    decreases s.len(),
{
    if s.len() > 0 {
        lemma_table_contains(s.drop_last(), k);
        if table_map(s.drop_last()).contains_key(k) {
            let i = choose|i: int| 0 <= i < s.drop_last().len() && s.drop_last()[i].key() == k;
            assert(s[i].key() == k);
        }
        if exists|i: int| 0 <= i < s.len() && s[i].key() == k {
            let i = choose|i: int| 0 <= i < s.len() && s[i].key() == k;
            if i < s.len() - 1 {
                assert(s.drop_last()[i].key() == k);
            }
        }
    }
}

pub proof fn lemma_table_value(s: Seq<Association>, i: int)
    requires
        keys_unique(s),
        0 <= i < s.len(),
    ensures
        table_map(s).contains_key(s[i].key()),
        table_map(s)[s[i].key()] == s[i].value(),
    decreases s.len(),
{
    if i < s.len() - 1 {
        lemma_table_value(s.drop_last(), i);
    }
}

pub proof fn lemma_table_len(s: Seq<Association>)
    requires
        keys_unique(s),
    ensures
        table_map(s).dom().finite(),
        table_map(s).len() == s.len(),
    decreases s.len(),
{
    if s.len() > 0 {
        lemma_table_len(s.drop_last());
        lemma_table_contains(s.drop_last(), s.last().key());
        if table_map(s.drop_last()).contains_key(s.last().key()) {
            let i = choose|i: int|
                0 <= i < s.drop_last().len() && s.drop_last()[i].key() == s.last().key();
            assert(s[i].key() == s[s.len() - 1].key());
        }
    }
}

pub proof fn lemma_table_push(s: Seq<Association>, a: Association)
    ensures
        table_map(s.push(a)) == table_map(s).insert(a.key(), a.value()),
{
    assert(s.push(a).drop_last() =~= s);
}

pub proof fn lemma_table_update(s: Seq<Association>, i: int, a: Association)
    requires
        keys_unique(s),
        0 <= i < s.len(),
        s[i].key() == a.key(),
    ensures
        keys_unique(s.update(i, a)),
        table_map(s.update(i, a)) == table_map(s).insert(a.key(), a.value()),
    decreases s.len(),
{
    let t = s.update(i, a);
    if i == s.len() - 1 {
        assert(t.drop_last() =~= s.drop_last());
        assert(table_map(t) =~= table_map(s).insert(a.key(), a.value()));
    } else {
        assert(t.drop_last() =~= s.drop_last().update(i, a));
        lemma_table_update(s.drop_last(), i, a);
        assert(table_map(t) =~= table_map(s).insert(a.key(), a.value()));
    }
}

pub proof fn lemma_table_remove(s: Seq<Association>, i: int)
    requires
        keys_unique(s),
        0 <= i < s.len(),
    ensures
        keys_unique(s.remove(i)),
        table_map(s.remove(i)) == table_map(s).remove(s[i].key()),
    decreases s.len(),
{
    let t = s.remove(i);
    let k = s[i].key();
    assert(keys_unique(t)) by {
        assert forall|a: int, b: int| 0 <= a < b < t.len() implies t[a].key() != t[b].key() by {
            let a2 = if a < i { a } else { a + 1 };
            let b2 = if b < i { b } else { b + 1 };
            assert(t[a] == s[a2]);
            assert(t[b] == s[b2]);
        }
    }
    if i == s.len() - 1 {
        assert(t =~= s.drop_last());
        lemma_table_contains(s.drop_last(), k);
        if table_map(s.drop_last()).contains_key(k) {
            let j = choose|j: int| 0 <= j < s.drop_last().len() && s.drop_last()[j].key() == k;
            assert(s[j].key() == s[i].key());
        }
        assert(table_map(t) =~= table_map(s).remove(k));
    } else {
        assert(t.drop_last() =~= s.drop_last().remove(i));
        assert(t.last() == s.last());
        lemma_table_remove(s.drop_last(), i);
        assert(s.last().key() != k);
        assert(table_map(t) =~= table_map(s).remove(k));
    }
}

/// The position of the entry with the key `(source, object)`, if there is one.
pub fn find_entry(entries: &Vec<Association>, source: i32, object: usize) -> (r: Option<usize>)
    ensures
        match r {
            Some(i) => i < entries@.len() && entries@[i as int].key() == (source, object),
            None => forall|i: int| 0 <= i < entries@.len() ==> entries@[i].key() != (source, object),
        },
{
    let mut i: usize = 0;
    while i < entries.len()
        invariant
            i <= entries@.len(),
            forall|j: int| 0 <= j < i ==> entries@[j].key() != (source, object),
        decreases entries@.len() - i,
    {
        if entries[i].source == source && entries[i].object == object {
            return Some(i);
        }
        i = i + 1;
    }
    None
}

} // verus!
