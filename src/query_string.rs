use vstd::prelude::*;
use vstd::string::*;
use vstd::utf8::*;

use crate::scan::{
    find_first_of, first_index, first_of, lemma_ascii_text, lemma_first_of_is, same_text,
    split_around, split_first_of,
};

verus! {

/// The byte `&`, which separates the segments of a query string.
pub const AMPERSAND: u8 = 38;

/// The byte `=`, which separates a key from its value.
pub const EQUALS: u8 = 61;

/// The value of a key: one text, or every text given for the key when it repeats.
#[derive(Debug, Clone, PartialEq, Eq)]
pub enum Value<'buf> {
    Single(&'buf str),
    Multiple(Vec<&'buf str>),
}

/// A key with its values in arrival order, all as bytes.
pub type Entry = (Seq<u8>, Seq<Seq<u8>>);

impl<'buf> Value<'buf> {
    /// The texts held, in arrival order.
    pub open spec fn values(&self) -> Seq<Seq<u8>> {
        match self {
            Value::Single(v) => seq![v.spec_bytes()],
            Value::Multiple(vs) => vs@.map_values(|v: &'buf str| v.spec_bytes()),
        }
    }

    /// A single value is held as `Single`, two or more as `Multiple`.
    pub open spec fn well_shaped(&self) -> bool {
        match self {
            Value::Single(_) => true,
            Value::Multiple(vs) => vs@.len() >= 2,
        }
    }
}

/// The segments of `s` between the `&` separators, in order; there is always at least one.
pub open spec fn segments(s: Seq<u8>) -> Seq<Seq<u8>>
    decreases s.len(),
{
    match first_index(s, AMPERSAND) {
        Some(i) => if 0 <= i < s.len() {
            seq![s.take(i)] + segments(s.skip(i + 1))
        } else {
            seq![s]
        },
        None => seq![s],
    }
}

/// The key and value of one segment, split at its first `=`; without one, the whole
/// segment is the key and the value is empty.
pub open spec fn pair_of(segment: Seq<u8>) -> (Seq<u8>, Seq<u8>) {
    match split_first_of(segment, EQUALS, EQUALS) {
        Some(kv) => kv,
        None => (segment, Seq::empty()),
    }
}

/// `j` is the position of key `k` among `entries`.
pub open spec fn key_at(entries: Seq<Entry>, k: Seq<u8>, j: int) -> bool {
    0 <= j < entries.len() && entries[j].0 == k
}

/// No key occurs twice.
pub open spec fn keys_unique(entries: Seq<Entry>) -> bool {
    forall|i: int, j: int|
        0 <= i < entries.len() && 0 <= j < entries.len() && i != j ==> entries[i].0
            != entries[j].0
}

/// The values recorded for key `k`, if it occurs.
pub open spec fn lookup(entries: Seq<Entry>, k: Seq<u8>) -> Option<Seq<Seq<u8>>> {
    if exists|j: int| key_at(entries, k, j) {
        Some(entries[choose|j: int| key_at(entries, k, j)].1)
    } else {
        None
    }
}

/// Records value `v` for key `k`: appended to the key's values if the key occurs,
/// otherwise as a new key at the end.
pub open spec fn add_value(entries: Seq<Entry>, k: Seq<u8>, v: Seq<u8>) -> Seq<Entry> {
    if exists|j: int| key_at(entries, k, j) {
        let j = choose|j: int| key_at(entries, k, j);
        entries.update(j, (k, entries[j].1.push(v)))
    } else {
        entries.push((k, seq![v]))
    }
}

/// The entries made by recording the pairs one after the other.
pub open spec fn collect(pairs: Seq<(Seq<u8>, Seq<u8>)>) -> Seq<Entry>
    decreases pairs.len(),
{
    if pairs.len() == 0 {
        Seq::empty()
    } else {
        add_value(collect(pairs.drop_last()), pairs.last().0, pairs.last().1)
    }
}

/// The entries of a query string: its segments, each split into a key and a value,
/// recorded in order.
pub open spec fn parse_query(s: Seq<u8>) -> Seq<Entry> {
    collect(pairs_of(segments(s)))
}

/// Each segment split into its key and value.
pub open spec fn pairs_of(segs: Seq<Seq<u8>>) -> Seq<(Seq<u8>, Seq<u8>)> {
    segs.map_values(|g: Seq<u8>| pair_of(g))
}

/// Recording one more segment records its pair after the others.
proof fn lemma_collect_push(segs: Seq<Seq<u8>>, g: Seq<u8>)
    ensures
        collect(pairs_of(segs.push(g))) == add_value(
            collect(pairs_of(segs)),
            pair_of(g).0,
            pair_of(g).1,
        ),
{
    let p = pairs_of(segs.push(g));
    assert(p.drop_last() =~= pairs_of(segs));
    assert(p.last() == pair_of(g));
}

/// With unique keys, a key found at `j` is the one `lookup` and `add_value` pick.
pub proof fn lemma_key_at_unique(entries: Seq<Entry>, k: Seq<u8>, j: int)
    requires
        keys_unique(entries),
        key_at(entries, k, j),
    ensures
        (choose|i: int| key_at(entries, k, i)) == j,
        lookup(entries, k) == Some(entries[j].1),
{
    let i = choose|i: int| key_at(entries, k, i);
    assert(key_at(entries, k, i));
}

/// Recording a value keeps keys unique and leaves no key without a value.
pub proof fn lemma_add_value_unique(entries: Seq<Entry>, k: Seq<u8>, v: Seq<u8>)
    requires
        keys_unique(entries),
    ensures
        keys_unique(add_value(entries, k, v)),
{
    if exists|j: int| key_at(entries, k, j) {
        let j = choose|j: int| key_at(entries, k, j);
        assert(key_at(entries, k, j));
        let e = add_value(entries, k, v);
        assert forall|a: int, b: int|
            0 <= a < e.len() && 0 <= b < e.len() && a != b implies e[a].0 != e[b].0 by {
            assert(e[a].0 == entries[a].0);
            assert(e[b].0 == entries[b].0);
        }
    } else {
        let e = add_value(entries, k, v);
        assert forall|a: int, b: int|
            0 <= a < e.len() && 0 <= b < e.len() && a != b implies e[a].0 != e[b].0 by {
            if a == entries.len() {
                assert(!key_at(entries, k, b));
            } else if b == entries.len() {
                assert(!key_at(entries, k, a));
            }
        }
    }
}

/// A segment `k=v` of single bytes gives the key `k` and the value `v`.
proof fn lemma_pair_of_short(seg: Seq<u8>, k: u8, v: u8)
    requires
        seg == seq![k, EQUALS, v],
        k != EQUALS,
    ensures
        pair_of(seg) == (seq![k], seq![v]),
{
    lemma_first_of_is(seg, EQUALS, EQUALS, 1);
    assert(seg.take(1) =~= seq![k]);
    assert(seg.skip(2) =~= seq![v]);
}

/// `x=1&x=2&y=3` gives key `x` with `1` then `2`, and key `y` with `3`, in that order.
pub proof fn lemma_repeated_key_query()
    ensures
        parse_query(seq![120u8, 61, 49, 38, 120, 61, 50, 38, 121, 61, 51]) =~~= seq![
            (seq![120u8], seq![seq![49u8], seq![50u8]]),
            (seq![121u8], seq![seq![51u8]]),
        ],
{
    let q = seq![120u8, 61, 49, 38, 120, 61, 50, 38, 121, 61, 51];
    let s1 = seq![120u8, 61, 49];
    let r1 = seq![120u8, 61, 50, 38, 121, 61, 51];
    let s2 = seq![120u8, 61, 50];
    let r2 = seq![121u8, 61, 51];
    lemma_first_of_is(q, AMPERSAND, AMPERSAND, 3);
    assert(q.take(3) =~= s1);
    assert(q.skip(4) =~= r1);
    lemma_first_of_is(r1, AMPERSAND, AMPERSAND, 3);
    assert(r1.take(3) =~= s2);
    assert(r1.skip(4) =~= r2);
    assert(first_of(r2, AMPERSAND, AMPERSAND) is None);
    assert(segments(r2) == seq![r2]);
    assert(segments(r1) == seq![s2] + seq![r2]);
    assert(segments(q) =~= seq![s1, s2, r2]);
    lemma_pair_of_short(s1, 120, 49);
    lemma_pair_of_short(s2, 120, 50);
    lemma_pair_of_short(r2, 121, 51);
    let p = pairs_of(seq![s1, s2, r2]);
    assert(p =~= seq![(seq![120u8], seq![49u8]), (seq![120u8], seq![50u8]), (seq![121u8], seq![51u8])]);
    let p1 = p.drop_last();
    let p2 = p1.drop_last();
    let p3 = p2.drop_last();
    assert(p3 =~= Seq::<(Seq<u8>, Seq<u8>)>::empty());
    let e0 = Seq::<Entry>::empty();
    assert(collect(p3) == e0);
    assert(p2.last() == (seq![120u8], seq![49u8]));
    assert(!exists|j: int| key_at(e0, seq![120u8], j));
    let e1 = collect(p2);
    assert(e1 == add_value(e0, seq![120u8], seq![49u8]));
    assert(e1 =~= seq![(seq![120u8], seq![seq![49u8]])]);
    assert(p1.last() == (seq![120u8], seq![50u8]));
    let e2 = collect(p1);
    assert(e2 == add_value(e1, seq![120u8], seq![50u8]));
    assert(key_at(e1, seq![120u8], 0));
    lemma_key_at_unique(e1, seq![120u8], 0);
    assert(e2 =~~= seq![(seq![120u8], seq![seq![49u8], seq![50u8]])]);
    assert(seq![121u8] != seq![120u8]) by {
        assert(seq![121u8][0] != seq![120u8][0]);
    }
    assert(!key_at(e2, seq![121u8], 0));
    assert(!exists|j: int| key_at(e2, seq![121u8], j));
    assert(p.last() == (seq![121u8], seq![51u8]));
    assert(collect(p) == add_value(e2, seq![121u8], seq![51u8]));
}

/// The keys of `entries`, in order, joined by `&`.
pub open spec fn join_keys(entries: Seq<Entry>) -> Seq<u8>
    decreases entries.len(),
{
    if entries.len() == 0 {
        Seq::empty()
    } else if entries.len() == 1 {
        entries[0].0
    } else {
        join_keys(entries.drop_last()) + seq![AMPERSAND] + entries.last().0
    }
}

/// Encoding a text piece by piece gives the encoding of the whole.
proof fn lemma_encode_concat(a: Seq<char>, b: Seq<char>)
    ensures
        encode_utf8(a + b) == encode_utf8(a) + encode_utf8(b),
    decreases a.len(),
{
    if a.len() == 0 {
        assert(a + b =~= b);
    } else {
        lemma_encode_concat(a.drop_first(), b);
        assert((a + b).drop_first() =~= a.drop_first() + b);
        assert((a + b)[0] == a[0]);
    }
}

/// A parsed query string: each key with its values, over the request's bytes.
#[derive(Debug)]
pub struct QueryString<'buf> {
    data: Vec<(&'buf str, Value<'buf>)>,
}

/// The entries of stored pairs, as bytes.
pub open spec fn entries_of<'buf>(data: Seq<(&'buf str, Value<'buf>)>) -> Seq<Entry> {
    data.map_values(|e: (&'buf str, Value<'buf>)| (e.0.spec_bytes(), e.1.values()))
}

/// Stored pairs with unique keys and values of the right shape.
pub open spec fn pairs_ok<'buf>(data: Seq<(&'buf str, Value<'buf>)>) -> bool {
    &&& keys_unique(entries_of(data))
    &&& forall|i: int| 0 <= i < data.len() ==> (#[trigger] data[i]).1.well_shaped()
}

impl<'buf> View for QueryString<'buf> {
    type V = Seq<Entry>;

    closed spec fn view(&self) -> Seq<Entry> {
        entries_of(self.data@)
    }
}

/// Two query strings hold the same keys with the same values, in whatever order the keys
/// first arrived.
pub open spec fn same_entries(a: Seq<Entry>, b: Seq<Entry>) -> bool {
    &&& a.len() == b.len()
    &&& forall|i: int| 0 <= i < a.len() ==> lookup(b, #[trigger] a[i].0) == Some(a[i].1)
}

/// Whether two values hold the same texts.
fn same_values(a: &Value, b: &Value) -> (r: bool)
    requires
        a.well_shaped(),
        b.well_shaped(),
    ensures
        r == (a.values() == b.values()),
{
    match (a, b) {
        (Value::Single(x), Value::Single(y)) => {
            let r = same_text(x, y);
            assert(a.values()[0] == x.spec_bytes());
            assert(b.values()[0] == y.spec_bytes());
            if r {
                assert(a.values() =~= b.values());
            }
            r
        },
        (Value::Multiple(xs), Value::Multiple(ys)) => {
            if xs.len() != ys.len() {
                assert(a.values().len() != b.values().len());
                return false;
            }
            let mut i: usize = 0;
            while i < xs.len()
                invariant
                    xs@.len() == ys@.len(),
                    0 <= i <= xs@.len(),
                    a.values() == xs@.map_values(|v: &str| v.spec_bytes()),
                    b.values() == ys@.map_values(|v: &str| v.spec_bytes()),
                    forall|k: int| 0 <= k < i ==> xs@[k].spec_bytes() == ys@[k].spec_bytes(),
                decreases xs@.len() - i,
            {
                if !same_text(xs[i], ys[i]) {
                    assert(a.values()[i as int] != b.values()[i as int]);
                    return false;
                }
                i = i + 1;
            }
            assert(a.values() =~= b.values());
            true
        },
        (Value::Single(_), Value::Multiple(ys)) => {
            assert(a.values().len() != b.values().len());
            false
        },
        (Value::Multiple(xs), Value::Single(_)) => {
            assert(a.values().len() != b.values().len());
            false
        },
    }
}

/// Records `value` for `key` in the stored pairs.
fn record<'buf>(data: &mut Vec<(&'buf str, Value<'buf>)>, key: &'buf str, value: &'buf str)
    requires
        pairs_ok(old(data)@),
    ensures
        pairs_ok(final(data)@),
        entries_of(final(data)@) == add_value(
            entries_of(old(data)@),
            key.spec_bytes(),
            value.spec_bytes(),
        ),
{
    let ghost before = entries_of(data@);
    proof {
        lemma_add_value_unique(before, key.spec_bytes(), value.spec_bytes());
    }
    let mut j: usize = 0;
    while j < data.len()
        invariant
            data@ == old(data)@,
            before == entries_of(data@),
            pairs_ok(data@),
            0 <= j <= data@.len(),
            forall|i: int| 0 <= i < j ==> !key_at(before, key.spec_bytes(), i),
        decreases data@.len() - j,
    {
        if same_text(data[j].0, key) {
            proof {
                assert(key_at(before, key.spec_bytes(), j as int));
                lemma_key_at_unique(before, key.spec_bytes(), j as int);
            }
            let mut slot = (key, Value::Single(value));
            data.set_and_swap(j, &mut slot);
            let grown = match slot.1 {
                Value::Single(prev) => Value::Multiple(vec![prev, value]),
                Value::Multiple(mut vs) => {
                    vs.push(value);
                    Value::Multiple(vs)
                },
            };
            let ghost old_values = before[j as int].1;
            assert(grown.values() =~= old_values.push(value.spec_bytes()));
            data.set(j, (slot.0, grown));
            proof {
                let after = entries_of(data@);
                let expect = add_value(before, key.spec_bytes(), value.spec_bytes());
                assert(after =~= expect);
            }
            return;
        }
        j = j + 1;
    }
    data.push((key, Value::Single(value)));
    proof {
        assert(entries_of(data@) =~= before.push((key.spec_bytes(), seq![value.spec_bytes()])));
    }
}

/// Splits one segment into its key and value.
fn split_pair<'buf>(segment: &'buf str) -> (r: (&'buf str, &'buf str))
    ensures
        pair_of(segment.spec_bytes()) == (r.0.spec_bytes(), r.1.spec_bytes()),
{
    match find_first_of(segment.as_bytes(), EQUALS, EQUALS) {
        Some(i) => split_around(segment, i),
        None => {
            let empty = "";
            proof {
                reveal_strlit("");
                assert(empty.spec_bytes() =~= Seq::<u8>::empty());
            }
            (segment, empty)
        },
    }
}

impl<'buf> QueryString<'buf> {
    /// Keys are unique and each value has the shape its count calls for.
    #[verifier::type_invariant]
    spec fn well_formed(self) -> bool {
        pairs_ok(self.data@)
    }

    /// Parses the text after `?`: segments separated by `&`, each a key and a value
    /// separated by the first `=`. Any text is accepted.
    pub fn from(s: &'buf str) -> (r: QueryString<'buf>)
        ensures
            r@ == parse_query(s.spec_bytes()),
    {
        let ghost whole = s.spec_bytes();
        let mut data: Vec<(&'buf str, Value<'buf>)> = Vec::new();
        let mut rest: &'buf str = s;
        let ghost mut done: Seq<Seq<u8>> = Seq::empty();
        assert(done + segments(rest.spec_bytes()) =~= segments(whole));
        loop
            invariant
                whole == s.spec_bytes(),
                segments(whole) == done + segments(rest.spec_bytes()),
                entries_of(data@) == collect(pairs_of(done)),
                pairs_ok(data@),
            decreases rest.spec_bytes().len(),
        {
            let found = find_first_of(rest.as_bytes(), AMPERSAND, AMPERSAND);
            let ghost r = rest.spec_bytes();
            match found {
                Some(i) => {
                    let (segment, after) = split_around(rest, i);
                    let (key, value) = split_pair(segment);
                    proof {
                        assert(segments(r) == seq![r.take(i as int)] + segments(r.skip(i + 1)));
                    }
                    record(&mut data, key, value);
                    proof {
                        lemma_collect_push(done, segment.spec_bytes());
                        assert(done + segments(r) =~= done.push(segment.spec_bytes())
                            + segments(after.spec_bytes()));
                        done = done.push(segment.spec_bytes());
                    }
                    rest = after;
                },
                None => {
                    let (key, value) = split_pair(rest);
                    proof {
                        assert(segments(r) == seq![r]);
                        assert(done + segments(r) =~= done.push(r));
                    }
                    record(&mut data, key, value);
                    proof {
                        lemma_collect_push(done, r);
                        assert(segments(whole) == done.push(r));
                        assert(entries_of(data@) == parse_query(whole));
                    }
                    let q = QueryString { data };
                    assert(q@ == entries_of(q.data@));
                    return q;
                },
            }
        }
    }

    /// The keys, in the order they first arrived, joined by `&`.
    pub fn to_string(&self) -> (r: String)
        ensures
            encode_utf8(r@) == join_keys(self@),
    {
        let separator = "&";
        proof {
            reveal_strlit("&");
            lemma_ascii_text(separator);
            assert(separator.spec_bytes() =~= seq![AMPERSAND]);
        }
        let mut text = String::new();
        let mut j: usize = 0;
        while j < self.data.len()
            invariant
                0 <= j <= self.data@.len(),
                separator.spec_bytes() == seq![AMPERSAND],
                encode_utf8(text@) == join_keys(self@.take(j as int)),
            decreases self.data@.len() - j,
        {
            let ghost before = text@;
            let key = self.data[j].0;
            if j > 0 {
                text.append(separator);
            }
            text.append(key);
            proof {
                let taken = self@.take(j + 1 as int);
                assert(taken.drop_last() =~= self@.take(j as int));
                assert(taken.last().0 == key.spec_bytes());
                if j > 0 {
                    lemma_encode_concat(before, separator@);
                    lemma_encode_concat(before + separator@, key@);
                    assert(text@ == before + separator@ + key@);
                } else {
                    assert(before =~= Seq::<char>::empty());
                    assert(text@ =~= key@);
                }
            }
            j = j + 1;
        }
        assert(self@.take(j as int) =~= self@);
        text
    }

    /// The value recorded for `key`, if the key occurs.
    pub fn get(&self, key: &str) -> (r: Option<&Value<'buf>>)
        ensures
            match r {
                Some(v) => lookup(self@, key.spec_bytes()) == Some(v.values())
                    && v.well_shaped(),
                None => lookup(self@, key.spec_bytes()) is None,
            },
    {
        proof {
            use_type_invariant(self);
        }
        let mut j: usize = 0;
        while j < self.data.len()
            invariant
                pairs_ok(self.data@),
                0 <= j <= self.data@.len(),
                forall|i: int| 0 <= i < j ==> !key_at(self@, key.spec_bytes(), i),
            decreases self.data@.len() - j,
        {
            if same_text(self.data[j].0, key) {
                proof {
                    assert(key_at(self@, key.spec_bytes(), j as int));
                    lemma_key_at_unique(self@, key.spec_bytes(), j as int);
                }
                return Some(&self.data[j].1);
            }
            j = j + 1;
        }
        None
    }
}

impl<'buf> PartialEq for QueryString<'buf> {
    /// Equal when both hold the same keys with the same values; key order does not count.
    fn eq(&self, other: &QueryString<'buf>) -> (r: bool) {
        proof {
            use_type_invariant(self);
            use_type_invariant(other);
        }
        if self.data.len() != other.data.len() {
            assert(self@.len() != other@.len());
            return false;
        }
        let mut i: usize = 0;
        while i < self.data.len()
            invariant
                pairs_ok(self.data@),
                pairs_ok(other.data@),
                self@.len() == other@.len(),
                0 <= i <= self@.len(),
                forall|k: int| 0 <= k < i ==> lookup(other@, #[trigger] self@[k].0) == Some(self@[k].1),
            decreases self@.len() - i,
        {
            let entry = &self.data[i];
            assert(self@[i as int] == (entry.0.spec_bytes(), entry.1.values()));
            match other.get(entry.0) {
                Some(v) => {
                    if !same_values(&entry.1, v) {
                        assert(lookup(other@, self@[i as int].0) != Some(self@[i as int].1));
                        return false;
                    }
                },
                None => {
                    assert(lookup(other@, self@[i as int].0) != Some(self@[i as int].1));
                    return false;
                },
            }
            i = i + 1;
        }
        true
    }
}

impl<'buf> Eq for QueryString<'buf> {

}

impl<'buf> vstd::std_specs::cmp::PartialEqSpecImpl for QueryString<'buf> {
    open spec fn obeys_eq_spec() -> bool {
        true
    }

    open spec fn eq_spec(&self, other: &QueryString<'buf>) -> bool {
        same_entries(self@, other@)
    }
}

} // verus!
