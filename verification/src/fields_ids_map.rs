//! The name⇄id table: allocates a compact id per field name and resolves both
//! directions.
//!
//! Names are held in id order, so a field id is exactly the position its name
//! was inserted at. Ids are never reused while the table lives, and the id
//! space is bounded by the width of [`FieldId`].

use vstd::prelude::*;
use vstd::string::StrSliceExecFns;

verus! {

/// Compact identifier of one field within one index.
pub type FieldId = u16;

/// How many fields one index can hold: every `u16` is a valid id.
pub const FIELD_COUNT_LIMIT: usize = 65536;

/// The name⇄id table. Every name appears once; its id is its position.
#[derive(Clone, Debug)]
pub struct FieldsIdsMap {
    names: Vec<String>,
}

/// Index of the first name at or after `i` equal to `name`.
pub open spec fn spec_index_of_from(names: Seq<Seq<char>>, name: Seq<char>, i: int) -> Option<int>
    decreases names.len() - i,
{
    if i < 0 || i >= names.len() {
        None
    } else if names[i] == name {
        Some(i)
    } else {
        spec_index_of_from(names, name, i + 1)
    }
}

/// Index of `name` in the ordered name sequence, if it is present.
pub open spec fn spec_index_of(names: Seq<Seq<char>>, name: Seq<char>) -> Option<int> {
    spec_index_of_from(names, name, 0)
}

/// A found index names an equal entry; an absent one means no entry at or
/// after `i` is equal.
pub proof fn lemma_index_of_from_properties(names: Seq<Seq<char>>, name: Seq<char>, i: int)
    requires
        0 <= i <= names.len(),
    ensures
        match spec_index_of_from(names, name, i) {
            Some(k) => i <= k < names.len() && names[k] == name,
            None => forall|j: int| i <= j < names.len() ==> names[j] != name,
        },
    decreases names.len() - i,
{
    if i < names.len() && names[i] != name {
        lemma_index_of_from_properties(names, name, i + 1);
    }
}

/// The search may start past a prefix of unequal names without changing its
/// result.
pub proof fn lemma_index_of_skip(names: Seq<Seq<char>>, name: Seq<char>, i: int)
    requires
        0 <= i <= names.len(),
        forall|j: int| 0 <= j < i ==> names[j] != name,
    ensures
        spec_index_of(names, name) == spec_index_of_from(names, name, i),
    decreases i,
{
    if i > 0 {
        lemma_index_of_skip(names, name, i - 1);
    }
}

/// Character-wise string equality.
fn str_eq(a: &str, b: &str) -> (r: bool)
    ensures
        r == (a@ == b@),
{
    let alen = a.unicode_len();
    let blen = b.unicode_len();
    if alen != blen {
        return false;
    }
    let mut i: usize = 0;
    while i < alen
        invariant
            alen == a@.len(),
            alen == b@.len(),
            0 <= i <= alen,
            forall|j: int| 0 <= j < i ==> a@[j] == b@[j],
        decreases alen - i,
    {
        if a.get_char(i) != b.get_char(i) {
            return false;
        }
        i += 1;
    }
    proof {
        assert(a@ =~= b@);
    }
    true
}

impl FieldsIdsMap {
    /// The ordered sequence of names the table holds; a name's position is
    /// its id.
    pub closed spec fn names(&self) -> Seq<Seq<char>> {
        self.names.deep_view()
    }

    /// Well-formedness: names are unique and the id space is not exceeded.
    pub open spec fn wf(&self) -> bool {
        &&& self.names().len() <= FIELD_COUNT_LIMIT
        &&& forall|i: int, j: int|
            0 <= i < j < self.names().len() ==> self.names()[i] != self.names()[j]
    }

    /// An empty table.
    pub fn new() -> (r: FieldsIdsMap)
        ensures
            r.wf(),
            r.names().len() == 0,
    {
        FieldsIdsMap { names: Vec::new() }
    }

    /// The number of fields the table holds.
    pub fn len(&self) -> (r: usize)
        ensures
            r == self.names().len(),
    {
        self.names.len()
    }

    /// Whether the table holds no field.
    pub fn is_empty(&self) -> (r: bool)
        ensures
            r == (self.names().len() == 0),
    {
        self.names.len() == 0
    }

    /// The id of a field name, if the name is known.
    pub fn id(&self, name: &str) -> (r: Option<FieldId>)
        requires
            self.wf(),
        ensures
            match r {
                Some(id) => spec_index_of(self.names(), name@) == Some(id as int),
                None => spec_index_of(self.names(), name@) is None,
            },
    {
        let n = self.names.len();
        let mut i: usize = 0;
        while i < n
            invariant
                self.wf(),
                n == self.names().len(),
                0 <= i <= n,
                forall|j: int| 0 <= j < i ==> self.names()[j] != name@,
            decreases n - i,
        {
            assert(self.names()[i as int] == self.names@[i as int]@);
            if str_eq(self.names[i].as_str(), name) {
                proof {
                    lemma_index_of_skip(self.names(), name@, i as int);
                }
                return Some(i as u16);
            }
            i += 1;
        }
        proof {
            lemma_index_of_skip(self.names(), name@, n as int);
        }
        None
    }

    /// The name of a field id, if the id was allocated.
    pub fn name(&self, id: FieldId) -> (r: Option<&str>)
        ensures
            match r {
                Some(s) => (id as int) < self.names().len() && s@ == self.names()[id as int],
                None => (id as int) >= self.names().len(),
            },
    {
        if (id as usize) < self.names.len() {
            assert(self.names()[id as int] == self.names@[id as int]@);
            Some(self.names[id as usize].as_str())
        } else {
            None
        }
    }

    /// Insert a name. A known name keeps its id; a new one receives the next
    /// free id, and `None` is returned exactly when the id space is full.
    pub fn insert(&mut self, name: &str) -> (r: Option<FieldId>)
        requires
            old(self).wf(),
        ensures
            final(self).wf(),
            match spec_index_of(old(self).names(), name@) {
                Some(i) => r == Some(i as FieldId) && final(self).names() == old(self).names(),
                None => if old(self).names().len() < FIELD_COUNT_LIMIT {
                    r == Some(old(self).names().len() as FieldId)
                        && final(self).names() == old(self).names().push(name@)
                } else {
                    r is None && final(self).names() == old(self).names()
                },
            },
    {
        match self.id(name) {
            Some(id) => Some(id),
            None => {
                proof {
                    lemma_index_of_from_properties(self.names(), name@, 0);
                }
                let n = self.names.len();
                if n < FIELD_COUNT_LIMIT {
                    self.names.push(name.to_owned());
                    proof {
                        assert(final(self).names() =~= old(self).names().push(name@));
                    }
                    Some(n as u16)
                } else {
                    None
                }
            }
        }
    }

    /// Every `(id, name)` pair, in id order.
    pub fn iter(&self) -> (r: Vec<(FieldId, String)>)
        requires
            self.wf(),
        ensures
            r@.len() == self.names().len(),
            forall|i: int|
                0 <= i < r@.len() ==> (#[trigger] r@[i]).0 == i as FieldId && r@[i].1@
                    == self.names()[i],
    {
        let n = self.names.len();
        let mut r: Vec<(FieldId, String)> = Vec::new();
        let mut i: usize = 0;
        while i < n
            invariant
                self.wf(),
                n == self.names().len(),
                0 <= i <= n,
                r@.len() == i,
                forall|j: int|
                    0 <= j < i ==> (#[trigger] r@[j]).0 == j as FieldId && r@[j].1@
                        == self.names()[j],
            decreases n - i,
        {
            assert(self.names()[i as int] == self.names@[i as int]@);
            r.push((i as u16, self.names[i].clone()));
            i += 1;
        }
        r
    }
}

} // verus!
