//! Configuration values: what a configuration document holds once it is read.

use vstd::prelude::*;

use crate::text::same;

verus! {

/// The mathematical form of a [`Node`].
pub enum Val {
    Null,
    Bool(bool),
    Int(int),
    Float(Seq<char>),
    Text(Seq<char>),
    Array(Seq<Val>),
    Object(Seq<(Seq<char>, Val)>),
}

/// A value of a configuration document.
#[derive(Debug)]
pub enum Node {
    Null,
    Bool(bool),
    Int(i128),
    /// A floating-point number, held as the text it is printed with.
    Float(String),
    Text(String),
    Array(Vec<Node>),
    Object(Object),
}

/// A mapping that remembers the order in which its keys were first set.
#[derive(Debug)]
pub struct Object {
    entries: Vec<(String, Node)>,
}

/// The mathematical form of a value.
pub open spec fn val_of(v: Node) -> Val
    decreases v,
{
    match v {
        Node::Null => Val::Null,
        Node::Bool(b) => Val::Bool(b),
        Node::Int(n) => Val::Int(n as int),
        Node::Float(s) => Val::Float(s@),
        Node::Text(s) => Val::Text(s@),
        Node::Array(items) => Val::Array(vals(items@)),
        Node::Object(o) => Val::Object(object_of(o)),
    }
}

/// The mathematical forms of a list of values.
pub open spec fn vals(items: Seq<Node>) -> Seq<Val>
    decreases items,
{
    Seq::new(
        items.len(),
        |i: int|
            if 0 <= i < items.len() {
                val_of(items[i])
            } else {
                Val::Null
            },
    )
}

/// The entries of a mapping, in order.
pub closed spec fn object_of(o: Object) -> Seq<(Seq<char>, Val)>
    decreases o,
{
    pairs(o.entries@)
}

spec fn pairs(entries: Seq<(String, Node)>) -> Seq<(Seq<char>, Val)>
    decreases entries,
{
    Seq::new(
        entries.len(),
        |i: int|
            if 0 <= i < entries.len() {
                (entries[i].0@, val_of(entries[i].1))
            } else {
                (Seq::empty(), Val::Null)
            },
    )
}

impl View for Node {
    type V = Val;

    open spec fn view(&self) -> Val {
        val_of(*self)
    }
}

impl View for Object {
    type V = Seq<(Seq<char>, Val)>;

    open spec fn view(&self) -> Seq<(Seq<char>, Val)> {
        object_of(*self)
    }
}

pub broadcast proof fn vals_push(items: Seq<Node>, x: Node)
    ensures
        #[trigger] vals(items.push(x)) == vals(items).push(x@),
{
    assert(vals(items.push(x)) =~= vals(items).push(x@));
}

/// The mathematical form of an optional value.
pub open spec fn opt_val(o: Option<Node>) -> Option<Val> {
    match o {
        Some(v) => Some(v@),
        None => None,
    }
}

// ---------------------------------------------------------------------------
// Mappings

/// The position of a key.
pub open spec fn index_of(m: Seq<(Seq<char>, Val)>, key: Seq<char>) -> Option<int>
    decreases m.len(),
{
    if m.len() == 0 {
        None
    } else {
        match index_of(m.drop_last(), key) {
            Some(i) => Some(i),
            None => if m.last().0 == key {
                Some(m.len() - 1)
            } else {
                None
            },
        }
    }
}

/// What a mapping holds under a key.
pub open spec fn get(m: Seq<(Seq<char>, Val)>, key: Seq<char>) -> Option<Val> {
    match index_of(m, key) {
        Some(i) => Some(m[i].1),
        None => None,
    }
}

/// The mapping with a key set: in its place where it was there, else last.
pub open spec fn put(m: Seq<(Seq<char>, Val)>, key: Seq<char>, v: Val) -> Seq<(Seq<char>, Val)> {
    match index_of(m, key) {
        Some(i) => m.update(i, (key, v)),
        None => m.push((key, v)),
    }
}

/// The mapping without a key, with its last entry in the place that came free.
pub open spec fn swap_removed(m: Seq<(Seq<char>, Val)>, key: Seq<char>) -> Seq<(Seq<char>, Val)> {
    match index_of(m, key) {
        Some(i) => m.update(i, m.last()).drop_last(),
        None => m,
    }
}

/// The mapping without a key, the other entries in their order.
pub open spec fn shift_removed(m: Seq<(Seq<char>, Val)>, key: Seq<char>) -> Seq<(Seq<char>, Val)> {
    match index_of(m, key) {
        Some(i) => m.remove(i),
        None => m,
    }
}

/// No key occurs twice.
pub open spec fn keys_distinct(m: Seq<(Seq<char>, Val)>) -> bool {
    forall|i: int, j: int| 0 <= i < j < m.len() ==> (#[trigger] m[i]).0 != (#[trigger] m[j]).0
}

/// The keys of a mapping, in order.
pub open spec fn keys(m: Seq<(Seq<char>, Val)>) -> Seq<Seq<char>> {
    Seq::new(m.len(), |i: int| m[i].0)
}

/// The position found is the first that holds the key.
pub proof fn index_of_is_first(m: Seq<(Seq<char>, Val)>, key: Seq<char>)
    ensures
        match index_of(m, key) {
            Some(i) => 0 <= i < m.len() && m[i].0 == key && forall|j: int| 0 <= j < i ==> (#[trigger] m[j]).0 != key,
            None => forall|j: int| 0 <= j < m.len() ==> (#[trigger] m[j]).0 != key,
        },
    decreases m.len(),
{
    if m.len() > 0 {
        index_of_is_first(m.drop_last(), key);
        assert forall|j: int| 0 <= j < m.len() - 1 implies m.drop_last()[j] == #[trigger] m[j] by {}
    }
}

proof fn index_of_found(m: Seq<(Seq<char>, Val)>, key: Seq<char>, i: int)
    requires
        0 <= i < m.len(),
        m[i].0 == key,
        forall|j: int| 0 <= j < i ==> (#[trigger] m[j]).0 != key,
    ensures
        index_of(m, key) == Some(i),
{
    index_of_is_first(m, key);
    let k = index_of(m, key);
    if k is None {
        assert(m[i].0 != key);
    } else if k->0 < i {
        assert(m[k->0].0 != key);
    } else if i < k->0 {
        assert(m[i].0 != key);
    }
}

/// Setting a key makes it hold the new value, and changes no other key.
pub proof fn get_after_put(m: Seq<(Seq<char>, Val)>, key: Seq<char>, v: Val, other: Seq<char>)
    ensures
        get(put(m, key, v), key) == Some(v),
        other != key ==> get(put(m, key, v), other) == get(m, other),
{
    let n = put(m, key, v);
    index_of_is_first(m, key);
    index_of_is_first(m, other);
    index_of_is_first(n, key);
    index_of_is_first(n, other);
    match index_of(m, key) {
        Some(i) => {
            assert(n[i].0 == key);
            assert forall|j: int| 0 <= j < i implies (#[trigger] n[j]).0 != key by {
                assert(m[j].0 != key);
            }
            index_of_found(n, key, i);
        },
        None => {
            let i = m.len() as int;
            assert forall|j: int| 0 <= j < i implies (#[trigger] n[j]).0 != key by {
                assert(m[j].0 != key);
            }
            index_of_found(n, key, i);
        },
    }
    if other != key {
        match index_of(m, other) {
            Some(k) => {
                assert(n[k].0 == other);
                assert forall|j: int| 0 <= j < k implies (#[trigger] n[j]).0 != other by {
                    assert(m[j].0 != other);
                }
                index_of_found(n, other, k);
            },
            None => {
                match index_of(n, other) {
                    Some(k) => {
                        assert(n[k].0 == other);
                        if k < m.len() {
                            assert(m[k].0 != other);
                        }
                    },
                    None => {},
                }
            },
        }
    }
}

/// Removing a key of a mapping without double keys makes it hold nothing.
pub proof fn get_after_remove(m: Seq<(Seq<char>, Val)>, key: Seq<char>)
    requires
        keys_distinct(m),
    ensures
        get(swap_removed(m, key), key) is None,
        get(shift_removed(m, key), key) is None,
{
    index_of_is_first(m, key);
    index_of_is_first(swap_removed(m, key), key);
    index_of_is_first(shift_removed(m, key), key);
    match index_of(m, key) {
        Some(i) => {
            let n = swap_removed(m, key);
            assert forall|j: int| 0 <= j < n.len() implies (#[trigger] n[j]).0 != key by {
                if j == i {
                    assert(n[j] == m[m.len() - 1]);
                    assert(m[i].0 != m[m.len() - 1].0);
                } else if j < i {
                    assert(m[j].0 != m[i].0);
                } else {
                    assert(m[i].0 != m[j].0);
                }
            }
            let p = shift_removed(m, key);
            assert forall|j: int| 0 <= j < p.len() implies (#[trigger] p[j]).0 != key by {
                if j < i {
                    assert(m[j].0 != m[i].0);
                } else {
                    assert(p[j] == m[j + 1]);
                    assert(m[i].0 != m[j + 1].0);
                }
            }
        },
        None => {},
    }
}

/// Removing a key in order changes no other key.
pub proof fn shift_keeps_others(m: Seq<(Seq<char>, Val)>, key: Seq<char>, other: Seq<char>)
    ensures
        other != key ==> get(shift_removed(m, key), other) == get(m, other),
{
    let n = shift_removed(m, key);
    index_of_is_first(m, key);
    index_of_is_first(m, other);
    index_of_is_first(n, other);
    if index_of(m, key) is Some && other != key {
        let i = index_of(m, key)->0;
        match index_of(m, other) {
            Some(k) => {
                let at = if k < i {
                    k
                } else {
                    k - 1
                };
                assert(n[at] == m[k]);
                assert forall|j: int| 0 <= j < at implies (#[trigger] n[j]).0 != other by {
                    assert(m[j].0 != other);
                    if j >= i {
                        assert(n[j] == m[j + 1]);
                    }
                }
                index_of_found(n, other, at);
            },
            None => {
                assert forall|j: int| 0 <= j < n.len() implies (#[trigger] n[j]).0 != other by {
                    assert(n[j] == m[j] || n[j] == m[j + 1]);
                }
            },
        }
    }
}

/// Removing a key of a mapping without double keys changes no other key, and
/// leaves no double keys.
pub proof fn remove_keeps_others(m: Seq<(Seq<char>, Val)>, key: Seq<char>, other: Seq<char>)
    requires
        keys_distinct(m),
    ensures
        keys_distinct(swap_removed(m, key)),
        other != key ==> get(swap_removed(m, key), other) == get(m, other),
{
    let n = swap_removed(m, key);
    index_of_is_first(m, key);
    index_of_is_first(m, other);
    index_of_is_first(n, other);
    if let Some(i) = index_of(m, key) {
        let last = m.len() - 1;
        assert forall|a: int, b: int| 0 <= a < b < n.len() implies (#[trigger] n[a]).0 != (#[trigger] n[b]).0 by {
            assert(m[a].0 != m[b].0);
            if a == i {
                assert(m[b].0 != m[last].0);
            } else if b == i {
                assert(m[a].0 != m[last].0);
            }
        }
        if other != key {
            match index_of(m, other) {
                Some(k) => {
                    let at = if k == last { i } else { k };
                    assert(n[at] == m[k]);
                    assert forall|j: int| 0 <= j < at implies (#[trigger] n[j]).0 != other by {
                        assert(n[j].0 != n[at].0);
                    }
                    index_of_found(n, other, at);
                },
                None => {
                    if let Some(k) = index_of(n, other) {
                        assert(n[k].0 == other);
                        assert(m[if k == i { last } else { k }].0 != other);
                    }
                },
            }
        }
    }
}

impl Object {
    #[verifier::type_invariant]
    spec fn wf(self) -> bool {
        keys_distinct(object_of(self))
    }

    pub fn new() -> (r: Self)
        ensures
            r@ == Seq::<(Seq<char>, Val)>::empty(),
    {
        let r = Object { entries: Vec::new() };
        assert(r@ =~= Seq::<(Seq<char>, Val)>::empty());
        r
    }

    pub fn len(&self) -> (r: usize)
        ensures
            r == self@.len(),
    {
        self.entries.len()
    }

    pub fn is_empty(&self) -> (r: bool)
        ensures
            r == (self@.len() == 0),
    {
        self.entries.len() == 0
    }

    /// The key at a position.
    pub fn key_at(&self, i: usize) -> (r: &String)
        requires
            i < self@.len(),
        ensures
            r@ == self@[i as int].0,
    {
        &self.entries[i].0
    }

    /// The value at a position.
    pub fn value_at(&self, i: usize) -> (r: &Node)
        requires
            i < self@.len(),
        ensures
            r@ == self@[i as int].1,
            decreases_to!(self => r),
    {
        &self.entries[i].1
    }

    fn position(&self, key: &str) -> (r: Option<usize>)
        ensures
            match r {
                Some(i) => index_of(self@, key@) == Some(i as int) && i < self.entries@.len(),
                None => index_of(self@, key@) is None,
            },
    {
        let mut i: usize = 0;
        while i < self.entries.len()
            invariant
                i <= self.entries@.len(),
                forall|j: int| 0 <= j < i ==> (#[trigger] self@[j]).0 != key@,
            decreases self.entries.len() - i,
        {
            if same(self.entries[i].0.as_str(), key) {
                proof {
                    assert(self@[i as int].0 == key@);
                    index_of_found(self@, key@, i as int);
                }
                return Some(i);
            }
            i += 1;
        }
        proof {
            index_of_is_first(self@, key@);
        }
        None
    }

    pub fn get(&self, key: &str) -> (r: Option<&Node>)
        ensures
            match r {
                Some(v) => get(self@, key@) == Some(v@),
                None => get(self@, key@) is None,
            },
    {
        match self.position(key) {
            Some(i) => Some(&self.entries[i].1),
            None => None,
        }
    }

    pub fn contains_key(&self, key: &str) -> (r: bool)
        ensures
            r == (get(self@, key@) is Some),
    {
        self.position(key).is_some()
    }

    /// Sets a key: in its place where it was there, else last.
    pub fn insert(&mut self, key: &str, value: Node)
        ensures
            final(self)@ == put(old(self)@, key@, value@),
    {
        proof {
            use_type_invariant(&*self);
            index_of_is_first(self@, key@);
        }
        let ghost before = self@;
        let found = self.position(key);
        let mut entries: Vec<(String, Node)> = Vec::new();
        std::mem::swap(&mut entries, &mut self.entries);
        match found {
            Some(i) => {
                entries.set(i, (key.to_owned(), value));
            },
            None => {
                entries.push((key.to_owned(), value));
            },
        }
        proof {
            assert(pairs(entries@) =~= put(before, key@, value@));
            assert(keys_distinct(pairs(entries@))) by {
                let n = put(before, key@, value@);
                assert forall|i: int, j: int| 0 <= i < j < n.len() implies (#[trigger] n[i]).0 != (#[trigger] n[j]).0 by {
                    if found is Some {
                        assert(n[i].0 == before[i].0 && n[j].0 == before[j].0);
                    } else if j < before.len() {
                        assert(before[i].0 != before[j].0);
                    } else {
                        assert(before[i].0 != key@);
                    }
                }
            }
        }
        self.entries = entries;
    }

    /// Removes a key; the last entry takes the place that comes free.
    pub fn remove(&mut self, key: &str) -> (r: Option<Node>)
        ensures
            final(self)@ == swap_removed(old(self)@, key@),
            opt_val(r) == get(old(self)@, key@),
    {
        proof {
            use_type_invariant(&*self);
            index_of_is_first(self@, key@);
        }
        let ghost before = self@;
        match self.position(key) {
            Some(i) => {
                let mut entries: Vec<(String, Node)> = Vec::new();
                std::mem::swap(&mut entries, &mut self.entries);
                let (_, value) = entries.swap_remove(i);
                proof {
                    assert(pairs(entries@) =~= swap_removed(before, key@));
                    let n = swap_removed(before, key@);
                    assert forall|a: int, b: int| 0 <= a < b < n.len() implies (#[trigger] n[a]).0 != (#[trigger] n[b]).0 by {
                        assert(before[a].0 != before[b].0);
                        if a == i {
                            assert(before[b].0 != before[before.len() - 1].0);
                        } else if b == i {
                            assert(before[a].0 != before[before.len() - 1].0);
                        }
                    }
                }
                self.entries = entries;
                Some(value)
            },
            None => None,
        }
    }

    /// Removes a key; the other entries keep their order.
    pub fn shift_remove(&mut self, key: &str) -> (r: Option<Node>)
        ensures
            final(self)@ == shift_removed(old(self)@, key@),
            opt_val(r) == get(old(self)@, key@),
    {
        proof {
            use_type_invariant(&*self);
            index_of_is_first(self@, key@);
        }
        let ghost before = self@;
        match self.position(key) {
            Some(i) => {
                let mut entries: Vec<(String, Node)> = Vec::new();
                std::mem::swap(&mut entries, &mut self.entries);
                let (_, value) = entries.remove(i);
                proof {
                    assert(pairs(entries@) =~= shift_removed(before, key@));
                    let n = shift_removed(before, key@);
                    assert forall|a: int, b: int| 0 <= a < b < n.len() implies (#[trigger] n[a]).0 != (#[trigger] n[b]).0 by {
                        let p = if a < i { a } else { a + 1 };
                        let q = if b < i { b } else { b + 1 };
                        assert(before[p].0 != before[q].0);
                    }
                }
                self.entries = entries;
                Some(value)
            },
            None => None,
        }
    }
}

impl Clone for Object {
    fn clone(&self) -> (r: Self)
        ensures
            r@ == self@,
        decreases self,
    {
        let mut entries: Vec<(String, Node)> = Vec::new();
        let mut i: usize = 0;
        while i < self.entries.len()
            invariant
                i <= self.entries@.len(),
                pairs(entries@) == self@.take(i as int),
            decreases self.entries.len() - i,
        {
            let ghost old_entries = entries@;
            let k = self.entries[i].0.clone();
            let v = self.entries[i].1.clone();
            entries.push((k, v));
            i += 1;
            assert(pairs(entries@) =~= pairs(old_entries).push(self@[i - 1]));
            assert(self@.take(i as int) =~= self@.take(i - 1).push(self@[i - 1]));
        }
        assert(self@.take(i as int) =~= self@);
        proof {
            use_type_invariant(self);
        }
        Object { entries }
    }
}

impl Clone for Node {
    fn clone(&self) -> (r: Self)
        ensures
            r@ == self@,
        decreases self,
    {
        match self {
            Node::Null => Node::Null,
            Node::Bool(b) => Node::Bool(*b),
            Node::Int(n) => Node::Int(*n),
            Node::Float(s) => Node::Float(s.clone()),
            Node::Text(s) => Node::Text(s.clone()),
            Node::Array(items) => Node::Array(copy_values(items)),
            Node::Object(o) => Node::Object(o.clone()),
        }
    }
}

/// A copy of a list of values.
pub fn copy_values(items: &Vec<Node>) -> (r: Vec<Node>)
    ensures
        vals(r@) == vals(items@),
    decreases items,
{
    let mut out: Vec<Node> = Vec::new();
    let mut i: usize = 0;
    while i < items.len()
        invariant
            i <= items@.len(),
            vals(out@) == vals(items@).take(i as int),
        decreases items.len() - i,
    {
        let ghost before = out@;
        let v = items[i].clone();
        out.push(v);
        i += 1;
        assert(vals(out@) =~= vals(before).push(vals(items@)[i - 1]));
        assert(vals(items@).take(i as int) =~= vals(items@).take(i - 1).push(vals(items@)[i - 1]));
    }
    assert(vals(items@).take(i as int) =~= vals(items@));
    out
}

impl Node {
    /// A text value.
    pub fn text(s: &str) -> (r: Node)
        ensures
            r@ == Val::Text(s@),
    {
        Node::Text(s.to_owned())
    }

    pub fn as_str(&self) -> (r: Option<&String>)
        ensures
            match r {
                Some(s) => self@ == Val::Text(s@),
                None => !(self@ is Text),
            },
    {
        match self {
            Node::Text(s) => Some(s),
            _ => None,
        }
    }

    pub fn as_array(&self) -> (r: Option<&Vec<Node>>)
        ensures
            match r {
                Some(v) => self@ == Val::Array(vals(v@)),
                None => !(self@ is Array),
            },
    {
        match self {
            Node::Array(v) => Some(v),
            _ => None,
        }
    }

    pub fn as_object(&self) -> (r: Option<&Object>)
        ensures
            match r {
                Some(o) => self@ == Val::Object(o@),
                None => !(self@ is Object),
            },
    {
        match self {
            Node::Object(o) => Some(o),
            _ => None,
        }
    }

    pub fn is_null(&self) -> (r: bool)
        ensures
            r == (self@ is Null),
    {
        matches!(self, Node::Null)
    }
}

// ---------------------------------------------------------------------------
// Equality

/// Whether the text of a floating-point number is that of a zero.
pub open spec fn float_zero(s: Seq<char>) -> bool {
    s == "0.0"@ || s == "-0.0"@
}

/// Whether two values are equal. Mappings are compared without regard to the
/// order of their keys, and the two floating-point zeroes are equal.
pub open spec fn equal(a: Val, b: Val) -> bool
    decreases a,
{
    match (a, b) {
        (Val::Null, Val::Null) => true,
        (Val::Bool(x), Val::Bool(y)) => x == y,
        (Val::Int(x), Val::Int(y)) => x == y,
        (Val::Float(x), Val::Float(y)) => x == y || (float_zero(x) && float_zero(y)),
        (Val::Text(x), Val::Text(y)) => x == y,
        (Val::Array(x), Val::Array(y)) => x.len() == y.len() && equal_items(x, y),
        (Val::Object(x), Val::Object(y)) => x.len() == y.len() && equal_entries(x, y),
        _ => false,
    }
}

/// Whether the items of `a` equal those at the same places of `b`.
pub open spec fn equal_items(a: Seq<Val>, b: Seq<Val>) -> bool
    decreases a,
{
    a.len() == 0 || (equal(a.last(), b[a.len() - 1]) && equal_items(a.drop_last(), b))
}

/// Whether `b` holds an equal value under each key of `a`.
pub open spec fn equal_entries(a: Seq<(Seq<char>, Val)>, b: Seq<(Seq<char>, Val)>) -> bool
    decreases a,
{
    a.len() == 0 || (match get(b, a.last().0) {
        Some(v) => equal(a.last().1, v),
        None => false,
    } && equal_entries(a.drop_last(), b))
}

proof fn equal_items_fails(a: Seq<Val>, b: Seq<Val>, i: int)
    requires
        0 <= i < a.len(),
        !equal(a[i], b[i]),
    ensures
        !equal_items(a, b),
    decreases a.len(),
{
    if i < a.len() - 1 {
        equal_items_fails(a.drop_last(), b, i);
    }
}

proof fn equal_entries_fails(a: Seq<(Seq<char>, Val)>, b: Seq<(Seq<char>, Val)>, i: int)
    requires
        0 <= i < a.len(),
        match get(b, a[i].0) {
            Some(v) => !equal(a[i].1, v),
            None => true,
        },
    ensures
        !equal_entries(a, b),
    decreases a.len(),
{
    if i < a.len() - 1 {
        equal_entries_fails(a.drop_last(), b, i);
    }
}

impl Node {
    /// Whether two values are equal.
    pub fn equals(&self, other: &Node) -> (r: bool)
        ensures
            r == equal(self@, other@),
        decreases self,
    {
        match (self, other) {
            (Node::Null, Node::Null) => true,
            (Node::Bool(x), Node::Bool(y)) => *x == *y,
            (Node::Int(x), Node::Int(y)) => *x == *y,
            (Node::Float(x), Node::Float(y)) => same(x.as_str(), y.as_str()) || (is_float_zero(x.as_str())
                && is_float_zero(y.as_str())),
            (Node::Text(x), Node::Text(y)) => same(x.as_str(), y.as_str()),
            (Node::Array(x), Node::Array(y)) => equal_lists(x, y),
            (Node::Object(x), Node::Object(y)) => {
                if x.len() != y.len() {
                    return false;
                }
                let mut i: usize = 0;
                assert(x@.take(0) =~= Seq::empty());
                while i < x.entries.len()
                    invariant
                        i <= x@.len(),
                        x@.len() == x.entries@.len(),
                        self == Node::Object(*x),
                        other == Node::Object(*y),
                        x@.len() == y@.len(),
                        equal_entries(x@.take(i as int), y@),
                    decreases x.entries.len() - i,
                {
                    let matched = match y.get(x.entries[i].0.as_str()) {
                        Some(v) => x.entries[i].1.equals(v),
                        None => false,
                    };
                    if !matched {
                        proof {
                            equal_entries_fails(x@, y@, i as int);
                        }
                        return false;
                    }
                    i += 1;
                    assert(x@.take(i as int).drop_last() =~= x@.take(i - 1));
                }
                assert(x@.take(i as int) =~= x@);
                true
            },
            _ => false,
        }
    }
}

fn equal_lists(x: &Vec<Node>, y: &Vec<Node>) -> (r: bool)
    ensures
        r == equal(Val::Array(vals(x@)), Val::Array(vals(y@))),
    decreases x,
{
    if x.len() != y.len() {
        return false;
    }
    let mut i: usize = 0;
    assert(vals(x@).take(0) =~= Seq::empty());
    while i < x.len()
        invariant
            i <= x@.len(),
            x@.len() == y@.len(),
            equal_items(vals(x@).take(i as int), vals(y@)),
        decreases x.len() - i,
    {
        if !x[i].equals(&y[i]) {
            proof {
                equal_items_fails(vals(x@), vals(y@), i as int);
            }
            return false;
        }
        i += 1;
        assert(vals(x@).take(i as int).drop_last() =~= vals(x@).take(i - 1));
    }
    assert(vals(x@).take(i as int) =~= vals(x@));
    true
}

fn is_float_zero(s: &str) -> (r: bool)
    ensures
        r == float_zero(s@),
{
    same(s, "0.0") || same(s, "-0.0")
}

impl PartialEq for Node {
    fn eq(&self, other: &Node) -> (r: bool) {
        self.equals(other)
    }
}

impl vstd::std_specs::cmp::PartialEqSpecImpl for Node {
    open spec fn obeys_eq_spec() -> bool {
        true
    }

    open spec fn eq_spec(&self, other: &Node) -> bool {
        equal(self@, other@)
    }
}

impl PartialEq for Object {
    fn eq(&self, other: &Object) -> (r: bool) {
        let a = Node::Object(self.clone());
        let b = Node::Object(other.clone());
        a.equals(&b)
    }
}

impl vstd::std_specs::cmp::PartialEqSpecImpl for Object {
    open spec fn obeys_eq_spec() -> bool {
        true
    }

    open spec fn eq_spec(&self, other: &Object) -> bool {
        equal(Val::Object(self@), Val::Object(other@))
    }
}

}
