use vstd::prelude::*;

verus! {

/// No two keys in the table are the same string.
pub open spec fn distinct_keys(keys: Seq<Seq<char>>) -> bool {
    forall|i: int, j: int| 0 <= i < j < keys.len() ==> keys[i] != keys[j]
}

/// Index of the first occurrence of `k` in `keys`, or -1 when absent.
pub open spec fn key_index(keys: Seq<Seq<char>>, k: Seq<char>) -> int
    decreases keys.len(),
{
    if keys.len() == 0 {
        -1
    } else if keys[0] == k {
        0
    } else {
        let rest = key_index(keys.drop_first(), k);
        if rest < 0 {
            -1
        } else {
            rest + 1
        }
    }
}

pub open spec fn has_key(keys: Seq<Seq<char>>, k: Seq<char>) -> bool {
    key_index(keys, k) >= 0
}

/// The numeric identifier of `k`: its first-seen position, counting from 1.
/// 0 means the key is absent.
pub open spec fn id_of(keys: Seq<Seq<char>>, k: Seq<char>) -> int {
    key_index(keys, k) + 1
}

/// `key_index` is a bounded index, lands on `k`, and is the first such index.
pub proof fn lemma_key_index_props(keys: Seq<Seq<char>>, k: Seq<char>)
    ensures
        -1 <= key_index(keys, k) < keys.len(),
        key_index(keys, k) >= 0 ==> keys[key_index(keys, k)] == k,
        forall|j: int| 0 <= j < keys.len() && keys[j] == k ==> key_index(keys, k) <= j,
        key_index(keys, k) == -1 ==> forall|j: int| 0 <= j < keys.len() ==> keys[j] != k,
    decreases keys.len(),
{
    if keys.len() == 0 {
    } else if keys[0] == k {
    } else {
        lemma_key_index_props(keys.drop_first(), k);
        assert(forall|j: int| 1 <= j < keys.len() ==> keys[j] == keys.drop_first()[j - 1]);
    }
}

/// A key that sits at `i`, with no earlier occurrence, has `key_index` `i`.
pub proof fn lemma_key_index_first(keys: Seq<Seq<char>>, k: Seq<char>, i: int)
    requires
        0 <= i < keys.len(),
        keys[i] == k,
        forall|j: int| 0 <= j < i ==> keys[j] != k,
    ensures
        key_index(keys, k) == i,
    decreases keys.len(),
{
    if i == 0 {
    } else {
        assert(forall|j: int| 0 <= j < i - 1 ==> keys.drop_first()[j] == keys[j + 1]);
        lemma_key_index_first(keys.drop_first(), k, i - 1);
    }
}

/// Appending one more key never disturbs the index of a key already present.
pub proof fn lemma_key_index_push(keys: Seq<Seq<char>>, k: Seq<char>, k2: Seq<char>)
    requires
        has_key(keys, k),
    ensures
        key_index(keys.push(k2), k) == key_index(keys, k),
    decreases keys.len(),
{
    lemma_key_index_props(keys, k);
    if keys.len() == 0 {
    } else if keys[0] == k {
        assert(keys.push(k2)[0] == k);
    } else {
        assert(keys.push(k2).drop_first() =~= keys.drop_first().push(k2));
        lemma_key_index_push(keys.drop_first(), k, k2);
    }
}

/// Identifier stability: once a key is in the table, later assignments —
/// however many, in whatever order — leave its numeric identifier unchanged.
pub proof fn lemma_identifier_stable(keys: Seq<Seq<char>>, k: Seq<char>, later: Seq<Seq<char>>)
    requires
        has_key(keys, k),
    ensures
        id_of(keys + later, k) == id_of(keys, k),
        has_key(keys + later, k),
    decreases later.len(),
{
    if later.len() == 0 {
        assert(keys + later =~= keys);
    } else {
        lemma_key_index_push(keys, k, later[0]);
        assert(keys + later =~= keys.push(later[0]) + later.drop_first());
        lemma_identifier_stable(keys.push(later[0]), k, later.drop_first());
    }
}

/// The mapping from station string keys to numeric identifiers.
///
/// The key first seen `i`-th (counting from 0) has numeric identifier `i + 1`:
/// identifiers start at 1, increase by 1 per new key, and are never reused or
/// reassigned.
#[derive(Debug)]
pub struct IdentifierTable {
    /// Keys in first-seen order; position + 1 is the numeric identifier.
    pub names: Vec<String>,
}

impl IdentifierTable {
    /// The table as a sequence of string keys, in first-seen order.
    pub open spec fn keys(&self) -> Seq<Seq<char>> {
        self.names@.map_values(|s: String| s@)
    }

    /// Distinct keys, with room to assign at least one more 32-bit identifier.
    pub open spec fn wf(&self) -> bool {
        &&& distinct_keys(self.keys())
        &&& self.keys().len() < u32::MAX
    }

    pub fn new() -> (r: Self)
        ensures
            r.wf(),
            r.keys() == Seq::<Seq<char>>::empty(),
    {
        let r = IdentifierTable { names: Vec::new() };
        proof {
            assert(r.keys() =~= Seq::<Seq<char>>::empty());
        }
        r
    }

    /// How many keys have been assigned an identifier.
    pub fn len(&self) -> (r: usize)
        ensures
            r == self.keys().len(),
    {
        self.names.len()
    }

    /// The numeric identifier of `key`, or `None` when it was never assigned.
    pub fn lookup(&self, key: &String) -> (r: Option<u32>)
        requires
            self.wf(),
        ensures
            match r {
                Some(id) => has_key(self.keys(), key@) && id == id_of(self.keys(), key@),
                None => !has_key(self.keys(), key@),
            },
    {
        let n: usize = self.names.len();
        for i in 0..n
            invariant
                self.wf(),
                n == self.keys().len(),
                forall|j: int| 0 <= j < i ==> self.keys()[j] != key@,
        {
            if self.names[i].eq(key) {
                proof {
                    lemma_key_index_first(self.keys(), key@, i as int);
                }
                return Some((i as u32) + 1);
            }
        }
        proof {
            lemma_key_index_props(self.keys(), key@);
        }
        None
    }

    /// Assign an identifier to `key`: the one it already has, or — on first
    /// sight — the next sequential identifier, `len + 1`.
    pub fn assign(&mut self, key: &String) -> (r: u32)
        requires
            old(self).wf(),
            old(self).keys().len() + 1 < u32::MAX,
        ensures
            final(self).wf(),
            r == id_of(final(self).keys(), key@),
            has_key(final(self).keys(), key@),
            has_key(old(self).keys(), key@) ==> final(self).keys() == old(self).keys() && r
                == id_of(old(self).keys(), key@),
            !has_key(old(self).keys(), key@) ==> final(self).keys() == old(self).keys().push(key@)
                && r == old(self).keys().len() + 1,
    {
        match self.lookup(key) {
            Some(id) => id,
            None => {
                proof {
                    lemma_key_index_props(self.keys(), key@);
                }
                let ghost oldkeys = self.keys();
                let n: usize = self.names.len();
                self.names.push(key.clone());
                proof {
                    assert(self.keys() =~= oldkeys.push(key@));
                    lemma_key_index_first(self.keys(), key@, n as int);
                    assert forall|i: int, j: int| 0 <= i < j < self.keys().len() implies self.keys()[i]
                        != self.keys()[j] by {
                        if j < n as int {
                            assert(oldkeys[i] != oldkeys[j]);
                        }
                    }
                }
                (n as u32) + 1
            },
        }
    }
}

} // verus!
