//! The result set: names kept in ascending order, each once.

use vstd::prelude::*;
use vstd::utf8::encode_utf8;

verus! {

/// Whether `a` and `b` agree in their first `k` bytes and `a` comes first
/// by what follows: `a` ends there and `b` goes on, or the next byte of `a`
/// is the smaller one.
pub open spec fn precedes_at(a: Seq<u8>, b: Seq<u8>, k: int) -> bool {
    &&& 0 <= k <= a.len()
    &&& k <= b.len()
    &&& forall|j: int| 0 <= j < k ==> a[j] == b[j]
    &&& k < b.len()
    &&& (k == a.len() || a[k] < b[k])
}

/// The lexicographic order of byte strings, which is the order of `String`.
pub open spec fn precedes(a: Seq<u8>, b: Seq<u8>) -> bool {
    exists|k: int| precedes_at(a, b, k)
}

/// Whether the names stand in strictly ascending order.
pub open spec fn is_ascending(names: Seq<Seq<u8>>) -> bool {
    forall|i: int, j: int| 0 <= i < j < names.len() ==> precedes(#[trigger] names[i], #[trigger] names[j])
}

/// The bytes of each string of a list.
pub open spec fn bytes_of(names: Seq<String>) -> Seq<Seq<u8>> {
    Seq::new(names.len(), |i: int| encode_utf8(names[i]@))
}

/// No byte string precedes itself.
pub proof fn lemma_precedes_irreflexive(a: Seq<u8>)
    ensures
        !precedes(a, a),
{
}

/// The order is transitive.
pub proof fn lemma_precedes_transitive(a: Seq<u8>, b: Seq<u8>, c: Seq<u8>)
    requires
        precedes(a, b),
        precedes(b, c),
    ensures
        precedes(a, c),
{
    let k1 = choose|k: int| precedes_at(a, b, k);
    let k2 = choose|k: int| precedes_at(b, c, k);
    let k = if k1 <= k2 {
        k1
    } else {
        k2
    };
    assert(precedes_at(a, c, k));
}

/// Of two distinct byte strings one precedes the other.
pub proof fn lemma_precedes_total(a: Seq<u8>, b: Seq<u8>)
    ensures
        a == b || precedes(a, b) || precedes(b, a),
{
    if a != b {
        lemma_first_difference(a, b, 0);
    }
}

/// Two byte strings that agree in their first `k` bytes are equal or ordered.
proof fn lemma_first_difference(a: Seq<u8>, b: Seq<u8>, k: int)
    requires
        0 <= k <= a.len(),
        k <= b.len(),
        forall|j: int| 0 <= j < k ==> a[j] == b[j],
    ensures
        a == b || precedes(a, b) || precedes(b, a),
    decreases a.len() - k,
{
    if k == a.len() {
        if k == b.len() {
            assert(a =~= b);
        } else {
            assert(precedes_at(a, b, k));
        }
    } else if k == b.len() {
        assert(precedes_at(b, a, k));
    } else if a[k] < b[k] {
        assert(precedes_at(a, b, k));
    } else if b[k] < a[k] {
        assert(precedes_at(b, a, k));
    } else {
        lemma_first_difference(a, b, k + 1);
    }
}

/// An ascending list holds no name twice.
pub proof fn lemma_ascending_distinct(names: Seq<Seq<u8>>, i: int, j: int)
    requires
        is_ascending(names),
        0 <= i < names.len(),
        0 <= j < names.len(),
        names[i] == names[j],
    ensures
        i == j,
{
    lemma_precedes_irreflexive(names[i]);
}

/// What an ascending list holds, apart from its last name, is what the
/// list without that name holds.
proof fn lemma_drop_last_contains(names: Seq<Seq<u8>>, x: Seq<u8>)
    requires
        is_ascending(names),
        names.len() > 0,
    ensures
        names.drop_last().contains(x) <==> names.contains(x) && x != names.last(),
{
    let shorter = names.drop_last();
    if shorter.contains(x) {
        let j = choose|j: int| 0 <= j < shorter.len() && shorter[j] == x;
        assert(names[j] == x);
        assert(precedes(names[j], names[names.len() - 1]));
        lemma_precedes_irreflexive(x);
    }
    if names.contains(x) && x != names.last() {
        let j = choose|j: int| 0 <= j < names.len() && names[j] == x;
        assert(shorter[j] == x);
    }
}

/// The last name of an ascending list is the greatest: two ascending lists
/// that hold the same names end with the same name.
proof fn lemma_same_last(a: Seq<Seq<u8>>, b: Seq<Seq<u8>>)
    requires
        is_ascending(a),
        is_ascending(b),
        a.len() > 0,
        b.len() > 0,
        forall|x: Seq<u8>| a.contains(x) <==> b.contains(x),
    ensures
        a.last() == b.last(),
{
    let la = a.last();
    let lb = b.last();
    assert(a[a.len() - 1] == la);
    assert(b[b.len() - 1] == lb);
    assert(a.contains(la));
    assert(b.contains(lb));
    if la != lb {
        let i = choose|i: int| 0 <= i < a.len() && a[i] == lb;
        let j = choose|j: int| 0 <= j < b.len() && b[j] == la;
        assert(precedes(a[i], a[a.len() - 1]));
        assert(precedes(b[j], b[b.len() - 1]));
        lemma_precedes_transitive(la, lb, la);
        lemma_precedes_irreflexive(la);
    }
}

/// The order fixes the list: two ascending lists that hold the same names
/// are the same list.
pub proof fn lemma_ascending_unique(a: Seq<Seq<u8>>, b: Seq<Seq<u8>>)
    requires
        is_ascending(a),
        is_ascending(b),
        forall|x: Seq<u8>| a.contains(x) <==> b.contains(x),
    ensures
        a == b,
    decreases a.len(),
{
    if a.len() == 0 {
        if b.len() > 0 {
            assert(b.contains(b[0]));
        }
        assert(a =~= b);
    } else {
        assert(a.contains(a[0]));
        assert(b.len() > 0) by {
            let j = choose|j: int| 0 <= j < b.len() && b[j] == a[0];
        }
        lemma_same_last(a, b);
        assert forall|x: Seq<u8>| a.drop_last().contains(x) <==> b.drop_last().contains(x) by {
            lemma_drop_last_contains(a, x);
            lemma_drop_last_contains(b, x);
        }
        lemma_ascending_unique(a.drop_last(), b.drop_last());
        assert(a =~= a.drop_last().push(a.last()));
        assert(b =~= b.drop_last().push(b.last()));
    }
}

/// The number of names that precede `name`.
pub open spec fn rank(names: Seq<Seq<u8>>, name: Seq<u8>) -> int
    decreases names.len(),
{
    if names.len() == 0 {
        0
    } else {
        rank(names.drop_last(), name) + if precedes(names.last(), name) {
            1int
        } else {
            0int
        }
    }
}

/// The list with `name` added: a list that holds the name stays as it is,
/// and in any other the name goes behind the names that precede it.
pub open spec fn with_name(names: Seq<Seq<u8>>, name: Seq<u8>) -> Seq<Seq<u8>> {
    if names.contains(name) {
        names
    } else {
        names.insert(rank(names, name), name)
    }
}

/// Where the first `at` names precede `name` and no other does, `at` is its rank.
proof fn lemma_rank_is_split(names: Seq<Seq<u8>>, name: Seq<u8>, at: int)
    requires
        0 <= at <= names.len(),
        forall|j: int| 0 <= j < at ==> precedes(#[trigger] names[j], name),
        forall|j: int| at <= j < names.len() ==> !precedes(#[trigger] names[j], name),
    ensures
        rank(names, name) == at,
    decreases names.len(),
{
    if names.len() > 0 {
        let shorter = names.drop_last();
        if at == names.len() {
            lemma_rank_is_split(shorter, name, at - 1);
        } else {
            lemma_rank_is_split(shorter, name, at);
        }
    }
}

/// The rank of a name lies within the list.
pub proof fn lemma_rank_bounds(names: Seq<Seq<u8>>, name: Seq<u8>)
    ensures
        0 <= rank(names, name) <= names.len(),
    decreases names.len(),
{
    if names.len() > 0 {
        lemma_rank_bounds(names.drop_last(), name);
    }
}

/// A list with `x` put in holds what it held before, and `x`.
pub proof fn lemma_insert_contains(names: Seq<Seq<u8>>, at: int, x: Seq<u8>, y: Seq<u8>)
    requires
        0 <= at <= names.len(),
    ensures
        names.insert(at, x).contains(y) <==> names.contains(y) || y == x,
{
    let longer = names.insert(at, x);
    if names.contains(y) {
        let j = choose|j: int| 0 <= j < names.len() && names[j] == y;
        if j < at {
            assert(longer[j] == y);
        } else {
            assert(longer[j + 1] == y);
        }
    }
    if y == x {
        assert(longer[at] == y);
    }
    if longer.contains(y) {
        let j = choose|j: int| 0 <= j < longer.len() && longer[j] == y;
        if j < at {
            assert(names[j] == y);
        } else if j > at {
            assert(names[j - 1] == y);
        }
    }
}

/// A list with a name added holds what it held before, and the name.
pub proof fn lemma_with_name_contains(names: Seq<Seq<u8>>, name: Seq<u8>, other: Seq<u8>)
    ensures
        with_name(names, name).contains(other) <==> names.contains(other) || other == name,
{
    if !names.contains(name) {
        lemma_rank_bounds(names, name);
        lemma_insert_contains(names, rank(names, name), name, other);
    }
}

/// Adding a name a second time changes nothing: neither the list nor its length.
pub proof fn lemma_insert_idempotent(names: Seq<Seq<u8>>, name: Seq<u8>)
    ensures
        with_name(with_name(names, name), name) == with_name(names, name),
        with_name(with_name(names, name), name).len() == with_name(names, name).len(),
{
    lemma_with_name_contains(names, name, name);
}

/// The place of one byte string with regard to another.
#[derive(Clone, Copy, Debug, PartialEq, Eq, Structural)]
pub enum Place {
    /// It comes first.
    Before,
    /// They are the same.
    Same,
    /// It comes second.
    After,
}

/// Orders two byte strings lexicographically.
pub fn place_of(a: &[u8], b: &[u8]) -> (place: Place)
    ensures
        match place {
            Place::Before => precedes(a@, b@),
            Place::Same => a@ == b@,
            Place::After => precedes(b@, a@),
        },
{
    let mut k: usize = 0;
    while k < a.len() && k < b.len()
        invariant
            k <= a.len(),
            k <= b.len(),
            forall|j: int| 0 <= j < k ==> a@[j] == b@[j],
        decreases a.len() - k,
    {
        if a[k] < b[k] {
            assert(precedes_at(a@, b@, k as int));
            return Place::Before;
        }
        if a[k] > b[k] {
            assert(precedes_at(b@, a@, k as int));
            return Place::After;
        }
        k = k + 1;
    }
    if k < b.len() {
        assert(precedes_at(a@, b@, k as int));
        Place::Before
    } else if k < a.len() {
        assert(precedes_at(b@, a@, k as int));
        Place::After
    } else {
        assert(a@ =~= b@);
        Place::Same
    }
}

/// A set of names, held in ascending order.
pub struct NameSet {
    names: Vec<String>,
}

impl View for NameSet {
    type V = Seq<Seq<u8>>;

    /// The names in ascending order, each by its bytes.
    closed spec fn view(&self) -> Seq<Seq<u8>> {
        bytes_of(self.names@)
    }
}

impl NameSet {
    /// The invariant of the set: its names stand in strictly ascending order.
    pub open spec fn wf(&self) -> bool {
        is_ascending(self@)
    }

    /// The empty set.
    pub fn new() -> (set: NameSet)
        ensures
            set.wf(),
            set@ == Seq::<Seq<u8>>::empty(),
    {
        let set = NameSet { names: Vec::new() };
        assert(bytes_of(set.names@) =~= Seq::<Seq<u8>>::empty());
        set
    }

    /// The number of names.
    pub fn len(&self) -> (n: usize)
        ensures
            n == self@.len(),
    {
        self.names.len()
    }

    /// Adds `name`. A name that the set holds already changes nothing;
    /// the result says whether the name was new.
    pub fn insert(&mut self, name: String) -> (added: bool)
        requires
            old(self).wf(),
        ensures
            final(self).wf(),
            added == !old(self)@.contains(encode_utf8(name@)),
            final(self)@ == with_name(old(self)@, encode_utf8(name@)),
    {
        let ghost before = bytes_of(self.names@);
        let ghost new = encode_utf8(name@);
        let mut at: usize = 0;
        while at < self.names.len()
            invariant
                at <= self.names.len(),
                bytes_of(self.names@) == before,
                is_ascending(before),
                new == encode_utf8(name@),
                forall|j: int| 0 <= j < at ==> precedes(#[trigger] before[j], new),
            ensures
                at < before.len() ==> precedes(new, before[at as int]),
            decreases self.names.len() - at,
        {
            match place_of(self.names[at].as_str().as_bytes(), name.as_str().as_bytes()) {
                Place::Before => {},
                Place::Same => {
                    assert(before[at as int] == new);
                    return false;
                },
                Place::After => {
                    break ;
                },
            }
            at = at + 1;
        }
        assert forall|j: int| at <= j < before.len() implies precedes(new, #[trigger] before[j]) by {
            if j > at {
                lemma_precedes_transitive(new, before[at as int], before[j]);
            }
        }
        assert(!before.contains(new)) by {
            if before.contains(new) {
                let j = choose|j: int| 0 <= j < before.len() && before[j] == new;
                lemma_precedes_irreflexive(new);
            }
        }
        proof {
            assert forall|j: int| at <= j < before.len() implies !precedes(
                #[trigger] before[j],
                new,
            ) by {
                if precedes(before[j], new) {
                    lemma_precedes_transitive(new, before[j], new);
                    lemma_precedes_irreflexive(new);
                }
            }
            lemma_rank_is_split(before, new, at as int);
        }
        self.names.insert(at, name);
        assert(bytes_of(self.names@) =~= before.insert(at as int, new));
        proof {
            let after = before.insert(at as int, new);
            assert forall|i: int, j: int| 0 <= i < j < after.len() implies precedes(
                #[trigger] after[i],
                #[trigger] after[j],
            ) by {
                let a = if i < at { i } else { i - 1 };
                let b = if j < at { j } else { j - 1 };
                if i != at && j != at {
                    assert(precedes(before[a], before[b]));
                }
            }
        }
        true
    }

    /// Whether the set holds `name`.
    pub fn contains(&self, name: &str) -> (found: bool)
        ensures
            found == self@.contains(encode_utf8(name@)),
    {
        let mut at: usize = 0;
        while at < self.names.len()
            invariant
                at <= self.names.len(),
                forall|j: int| 0 <= j < at ==> self@[j] != encode_utf8(name@),
            decreases self.names.len() - at,
        {
            match place_of(self.names[at].as_str().as_bytes(), name.as_bytes()) {
                Place::Same => {
                    assert(self@[at as int] == encode_utf8(name@));
                    return true;
                },
                _ => {
                    proof {
                        lemma_precedes_irreflexive(self@[at as int]);
                    }
                },
            }
            at = at + 1;
        }
        false
    }

    /// Hands the names out in ascending order.
    pub fn into_sorted(self) -> (names: Vec<String>)
        ensures
            bytes_of(names@) == self@,
    {
        self.names
    }
}

} // verus!
