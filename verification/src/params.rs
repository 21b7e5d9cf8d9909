//! The parameters of a request: an ordered mapping from names to values, both byte strings,
//! in which every name occurs once.

use crate::buffer::{contents, slice_of};
use crate::lowlevel::buffer_pairs_view;
use crate::wire::Pair;
use bytes::BytesMut;
use vstd::prelude::*;
use vstd::slice::slice_to_vec;
use vstd::string::StringSliceAdditionalSpecFns;

verus! {

/// Whether no name occurs twice among the entries.
pub open spec fn unique_names(entries: Seq<Pair>) -> bool {
    forall|i: int, j: int|
        0 <= i < j < entries.len() ==> (#[trigger] entries[i]).0 != (#[trigger] entries[j]).0
}

/// Whether `i` is the position of the entry with the given name.
pub open spec fn is_position(entries: Seq<Pair>, name: Seq<u8>, i: int) -> bool {
    0 <= i < entries.len() && entries[i].0 == name
}

/// The position of the entry with the given name, if there is one.
pub open spec fn position(entries: Seq<Pair>, name: Seq<u8>) -> Option<int> {
    if exists|i: int| is_position(entries, name, i) {
        Some(choose|i: int| is_position(entries, name, i))
    } else {
        None
    }
}

/// The value that the entries give to a name.
pub open spec fn lookup(entries: Seq<Pair>, name: Seq<u8>) -> Option<Seq<u8>> {
    match position(entries, name) {
        Some(i) => Some(entries[i].1),
        None => None,
    }
}

/// The entries with one name set to a value: a name that is present keeps its place and
/// takes the new value, a new name goes to the end.
pub open spec fn put(entries: Seq<Pair>, name: Seq<u8>, value: Seq<u8>) -> Seq<Pair> {
    match position(entries, name) {
        Some(i) => entries.update(i, (name, value)),
        None => entries.push((name, value)),
    }
}

/// The entries without the one of the given name.
pub open spec fn without(entries: Seq<Pair>, name: Seq<u8>) -> Seq<Pair> {
    match position(entries, name) {
        Some(i) => entries.remove(i),
        None => entries,
    }
}

/// The entries with each of the given pairs put in turn.
pub open spec fn put_all(entries: Seq<Pair>, pairs: Seq<Pair>) -> Seq<Pair>
    decreases pairs.len(),
{
    if pairs.len() == 0 {
        entries
    } else {
        put(put_all(entries, pairs.drop_last()), pairs.last().0, pairs.last().1)
    }
}

/// The entries as a mapping from names to values.
pub open spec fn as_map(entries: Seq<Pair>) -> Map<Seq<u8>, Seq<u8>> {
    Map::new(
        |name: Seq<u8>| position(entries, name) is Some,
        |name: Seq<u8>| lookup(entries, name).unwrap(),
    )
}

/// Among unique names a name has one position only.
pub proof fn lemma_position(entries: Seq<Pair>, name: Seq<u8>, i: int)
    requires
        unique_names(entries),
        is_position(entries, name, i),
    ensures
        position(entries, name) == Some(i),
{
    let found = choose|k: int| is_position(entries, name, k);
    if found < i {
        assert(entries[found].0 != entries[i].0);
    } else if i < found {
        assert(entries[i].0 != entries[found].0);
    }
}

/// Putting a name leaves every other name as it was.
pub proof fn lemma_put_other(entries: Seq<Pair>, name: Seq<u8>, value: Seq<u8>, other: Seq<u8>)
    requires
        unique_names(entries),
        other != name,
    ensures
        position(put(entries, name, value), other) == position(entries, other),
        lookup(put(entries, name, value), other) == lookup(entries, other),
{
    let after = put(entries, name, value);
    if position(entries, name) is Some {
        assert(is_position(entries, name, position(entries, name).unwrap()));
    }
    if position(entries, other) is Some {
        let k = position(entries, other).unwrap();
        assert(is_position(entries, other, k));
        assert(is_position(after, other, k));
        let found = choose|i: int| is_position(after, other, i);
        assert(is_position(entries, other, found));
        lemma_position(entries, other, found);
    }
    if position(after, other) is Some {
        let k = position(after, other).unwrap();
        assert(is_position(after, other, k));
        assert(is_position(entries, other, k));
        lemma_position(entries, other, k);
    }
}

/// Putting a name keeps the names unique, and as a mapping it sets that one name: the
/// latest value put under a name is the one that stays.
pub proof fn lemma_put(entries: Seq<Pair>, name: Seq<u8>, value: Seq<u8>)
    requires
        unique_names(entries),
    ensures
        unique_names(put(entries, name, value)),
        as_map(put(entries, name, value)) == as_map(entries).insert(name, value),
        lookup(put(entries, name, value), name) == Some(value),
{
    let after = put(entries, name, value);
    match position(entries, name) {
        Some(i) => {
            assert(is_position(entries, name, i));
            assert forall|a: int, b: int| 0 <= a < b < after.len() implies (#[trigger] after[a]).0
                != (#[trigger] after[b]).0 by {
                assert(entries[a].0 != entries[b].0);
            }
            assert(is_position(after, name, i));
            lemma_position(after, name, i);
        },
        None => {
            assert forall|a: int, b: int| 0 <= a < b < after.len() implies (#[trigger] after[a]).0
                != (#[trigger] after[b]).0 by {
                if b < entries.len() {
                    assert(entries[a].0 != entries[b].0);
                } else {
                    assert(!is_position(entries, name, a));
                }
            }
            assert(is_position(after, name, entries.len() as int));
            lemma_position(after, name, entries.len() as int);
        },
    }
    let wanted = as_map(entries).insert(name, value);
    assert forall|k: Seq<u8>| as_map(after).dom().contains(k) == wanted.dom().contains(k) by {
        if k != name {
            lemma_put_other(entries, name, value, k);
        }
    }
    assert forall|k: Seq<u8>| #[trigger] as_map(after).dom().contains(k) implies as_map(after)[k]
        == wanted[k] by {
        if k != name {
            lemma_put_other(entries, name, value, k);
        }
    }
    assert(as_map(after) =~= wanted);
}

/// Putting pairs whose names are new and differ from each other appends them in order.
pub proof fn lemma_put_all_fresh(entries: Seq<Pair>, pairs: Seq<Pair>)
    requires
        unique_names(entries + pairs),
    ensures
        put_all(entries, pairs) == entries + pairs,
    decreases pairs.len(),
{
    if pairs.len() == 0 {
        assert(entries + pairs =~= entries);
    } else {
        let front = pairs.drop_last();
        let all = entries + pairs;
        assert forall|a: int, b: int| 0 <= a < b < (entries + front).len() implies (#[trigger] (
        entries + front)[a]).0 != (#[trigger] (entries + front)[b]).0 by {
            assert(all[a] == (entries + front)[a] && all[b] == (entries + front)[b]);
        }
        lemma_put_all_fresh(entries, front);
        let so_far = entries + front;
        let last = pairs.last();
        assert(all[all.len() - 1] == last);
        if exists|i: int| is_position(so_far, last.0, i) {
            let i = choose|i: int| is_position(so_far, last.0, i);
            assert(all[i] == so_far[i]);
            assert(all[i].0 != all[all.len() - 1].0);
        }
        assert(so_far.push(last) =~= all);
    }
}

/// The text that `String::from_utf8_lossy` makes of bytes: what they spell in UTF-8, with
/// the replacement character in place of whatever is not UTF-8.
pub uninterp spec fn utf8_lossy(bytes: Seq<u8>) -> Seq<char>;

/// `String::from_utf8_lossy`, taken as an owned string. It never fails.
#[verifier::external_body]
fn from_utf8_lossy(bytes: &[u8]) -> (text: String)
    ensures
        text@ == utf8_lossy(bytes@),
{
    String::from_utf8_lossy(bytes).into_owned()
}

/// The parameters of a request.
#[derive(Debug)]
pub struct Params {
    entries: Vec<(Vec<u8>, Vec<u8>)>,
}

/// The bytes of each entry of a list.
pub open spec fn entries_view(entries: Seq<(Vec<u8>, Vec<u8>)>) -> Seq<Pair> {
    entries.map_values(|e: (Vec<u8>, Vec<u8>)| (e.0@, e.1@))
}

impl View for Params {
    type V = Seq<Pair>;

    closed spec fn view(&self) -> Seq<Pair> {
        entries_view(self.entries@)
    }
}

/// Tells whether two byte strings are the same.
pub fn same_bytes(a: &[u8], b: &[u8]) -> (same: bool)
    ensures
        same == (a@ == b@),
{
    if a.len() != b.len() {
        return false;
    }
    let mut i: usize = 0;
    while i < a.len()
        invariant
            i <= a@.len(),
            a@.len() == b@.len(),
            forall|k: int| 0 <= k < i ==> a@[k] == b@[k],
        decreases a@.len() - i,
    {
        if a[i] != b[i] {
            return false;
        }
        i += 1;
    }
    assert(a@ =~= b@);
    true
}

impl Params {
    #[verifier::type_invariant]
    spec fn names_are_unique(self) -> bool {
        unique_names(entries_view(self.entries@))
    }

    pub fn new() -> (params: Params)
        ensures
            params@ == Seq::<Pair>::empty(),
    {
        let params = Params { entries: Vec::new() };
        assert(params@ =~= Seq::<Pair>::empty());
        params
    }

    /// The number of parameters. No name occurs twice among them.
    pub fn len(&self) -> (n: usize)
        ensures
            n == self@.len(),
            unique_names(self@),
    {
        proof {
            use_type_invariant(self);
        }
        self.entries.len()
    }

    /// The place of a name among the parameters.
    fn find(&self, name: &[u8]) -> (found: Option<usize>)
        ensures
            match found {
                Some(i) => position(self@, name@) == Some(i as int) && i < self.entries@.len(),
                None => position(self@, name@) is None,
            },
    {
        proof {
            use_type_invariant(self);
        }
        let mut i: usize = 0;
        while i < self.entries.len()
            invariant
                i <= self.entries@.len(),
                unique_names(self@),
                forall|k: int| 0 <= k < i ==> !is_position(self@, name@, k),
            decreases self.entries@.len() - i,
        {
            if same_bytes(self.entries[i].0.as_slice(), name) {
                proof {
                    assert(is_position(self@, name@, i as int));
                    lemma_position(self@, name@, i as int);
                }
                return Some(i);
            }
            i += 1;
        }
        None
    }

    /// The value of a parameter.
    pub fn get(&self, name: &[u8]) -> (value: Option<&Vec<u8>>)
        ensures
            match value {
                Some(v) => lookup(self@, name@) == Some(v@),
                None => lookup(self@, name@) is None,
            },
    {
        match self.find(name) {
            Some(i) => Some(&self.entries[i].1),
            None => None,
        }
    }

    /// The value of a parameter as text, for convenience: the value is read as UTF-8, and
    /// what is not UTF-8 in it is replaced, so that this never fails on a value.
    pub fn get_lossy(&self, name: &str) -> (value: Option<String>)
        ensures
            match lookup(self@, name.spec_bytes()) {
                Some(v) => value matches Some(text) && text@ == utf8_lossy(v),
                None => value is None,
            },
    {
        match self.get(name.as_bytes()) {
            Some(value) => Some(from_utf8_lossy(value.as_slice())),
            None => None,
        }
    }

    /// The name and the value of the parameter at a position, in the order of arrival.
    pub fn entry(&self, i: usize) -> (pair: (&Vec<u8>, &Vec<u8>))
        requires
            i < self@.len(),
        ensures
            (pair.0@, pair.1@) == self@[i as int],
    {
        (&self.entries[i].0, &self.entries[i].1)
    }

    /// Sets a parameter. A name that is present keeps its place and takes the new value; a
    /// new name goes to the end.
    pub fn insert(&mut self, name: Vec<u8>, value: Vec<u8>)
        ensures
            final(self)@ == put(old(self)@, name@, value@),
    {
        proof {
            use_type_invariant(&*self);
            lemma_put(self@, name@, value@);
        }
        let ghost before = self@;
        match self.find(name.as_slice()) {
            Some(i) => {
                let mut entries = Vec::new();
                std::mem::swap(&mut entries, &mut self.entries);
                entries[i] = (name, value);
                assert(entries_view(entries@) =~= put(before, name@, value@));
                self.entries = entries;
            },
            None => {
                let mut entries = Vec::new();
                std::mem::swap(&mut entries, &mut self.entries);
                entries.push((name, value));
                assert(entries_view(entries@) =~= put(before, name@, value@));
                self.entries = entries;
            },
        }
    }

    /// Takes a parameter out. The others keep their order.
    pub fn remove(&mut self, name: &[u8])
        ensures
            final(self)@ == without(old(self)@, name@),
    {
        proof {
            use_type_invariant(&*self);
        }
        let ghost before = self@;
        if let Some(i) = self.find(name) {
            let mut entries = Vec::new();
            std::mem::swap(&mut entries, &mut self.entries);
            let _ = entries.remove(i);
            proof {
                let after = entries_view(entries@);
                assert(after =~= before.remove(i as int));
                assert forall|a: int, b: int| 0 <= a < b < after.len() implies (
                #[trigger] after[a]).0 != (#[trigger] after[b]).0 by {
                    let a0 = if a < i { a } else { a + 1 };
                    let b0 = if b < i { b } else { b + 1 };
                    assert(before[a0].0 != before[b0].0);
                }
            }
            self.entries = entries;
        }
    }

    /// Sets each parameter of a `Params` record, in the order of the record.
    pub fn extend(&mut self, pairs: &Vec<(BytesMut, BytesMut)>)
        ensures
            final(self)@ == put_all(old(self)@, buffer_pairs_view(pairs@)),
    {
        let ghost all = buffer_pairs_view(pairs@);
        let mut i: usize = 0;
        while i < pairs.len()
            invariant
                i <= pairs@.len(),
                all == buffer_pairs_view(pairs@),
                self@ == put_all(old(self)@, all.take(i as int)),
            decreases pairs@.len() - i,
        {
            let name = slice_to_vec(slice_of(&pairs[i].0));
            let value = slice_to_vec(slice_of(&pairs[i].1));
            proof {
                assert(all.take(i + 1).drop_last() =~= all.take(i as int));
                assert(all.take(i + 1).last() == (name@, value@));
            }
            self.insert(name, value);
            i += 1;
        }
        assert(all.take(i as int) =~= all);
    }
}

} // verus!
