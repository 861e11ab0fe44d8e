use vstd::prelude::*;
use vstd::string::*;
use vstd::utf8::*;

verus! {

/// The bytes of an ASCII text.
pub open spec fn ascii_bytes(s: Seq<char>) -> Seq<u8> {
    s.map_values(|c: char| c as u8)
}

/// An ASCII text is encoded one byte per character.
pub proof fn lemma_ascii_text(s: &str)
    requires
        is_ascii(s),
    ensures
        s.spec_bytes() == ascii_bytes(s@),
{
    is_ascii_spec_bytes(s);
    assert(s.spec_bytes() =~= ascii_bytes(s@));
}

/// `i` is the position of the first byte of `s` that equals `a` or `b`.
pub open spec fn is_first_of(s: Seq<u8>, a: u8, b: u8, i: int) -> bool {
    &&& 0 <= i < s.len()
    &&& (s[i] == a || s[i] == b)
    &&& forall|k: int| 0 <= k < i ==> s[k] != a && s[k] != b
}

/// The position of the first byte of `s` that equals `a` or `b`, if there is one.
pub open spec fn first_of(s: Seq<u8>, a: u8, b: u8) -> Option<int> {
    if exists|i: int| is_first_of(s, a, b, i) {
        Some(choose|i: int| is_first_of(s, a, b, i))
    } else {
        None
    }
}

/// The position of the first byte of `s` that equals `c`, if there is one.
pub open spec fn first_index(s: Seq<u8>, c: u8) -> Option<int> {
    first_of(s, c, c)
}

/// Splits `s` around its first byte equal to `a` or `b`, dropping that byte.
pub open spec fn split_first_of(s: Seq<u8>, a: u8, b: u8) -> Option<(Seq<u8>, Seq<u8>)> {
    match first_of(s, a, b) {
        Some(i) => Some((s.take(i), s.skip(i + 1))),
        None => None,
    }
}

/// There is at most one first matching position.
pub proof fn lemma_first_of_is(s: Seq<u8>, a: u8, b: u8, i: int)
    requires
        is_first_of(s, a, b, i),
    ensures
        first_of(s, a, b) == Some(i),
{
    let j = choose|j: int| is_first_of(s, a, b, j);
    assert(is_first_of(s, a, b, j));
    if j < i {
        assert(s[j] != a && s[j] != b);
    } else if i < j {
        assert(s[i] != a && s[i] != b);
    }
}

/// In valid UTF-8, the position right after an ASCII byte at the start is a character boundary.
proof fn lemma_boundary_after_ascii(bytes: Seq<u8>)
    requires
        valid_utf8(bytes),
        bytes.len() > 0,
        bytes[0] < 128,
    ensures
        is_char_boundary(bytes, 1),
{
    reveal_with_fuel(is_char_boundary, 2);
}

/// Finds the first byte of `s` that equals `a` or `b`.
pub fn find_first_of(s: &[u8], a: u8, b: u8) -> (r: Option<usize>)
    ensures
        match r {
            Some(i) => first_of(s@, a, b) == Some(i as int),
            None => first_of(s@, a, b) is None,
        },
{
    let mut i: usize = 0;
    while i < s.len()
        invariant
            0 <= i <= s@.len(),
            forall|k: int| 0 <= k < i ==> s@[k] != a && s@[k] != b,
        decreases s@.len() - i,
    {
        if s[i] == a || s[i] == b {
            proof {
                lemma_first_of_is(s@, a, b, i as int);
            }
            return Some(i);
        }
        i = i + 1;
    }
    None
}

/// Splits `s` around the ASCII byte at `at`, dropping that byte; both parts borrow from `s`.
pub fn split_around<'a>(s: &'a str, at: usize) -> (r: (&'a str, &'a str))
    requires
        at < s.spec_bytes().len(),
        s.spec_bytes()[at as int] < 128,
    ensures
        r.0.spec_bytes() == s.spec_bytes().take(at as int),
        r.1.spec_bytes() == s.spec_bytes().skip(at + 1),
{
    proof {
        encode_utf8_valid_utf8(s@);
        is_char_boundary_iff_not_is_continuation_byte(s.spec_bytes(), at as int);
    }
    let (head, tail) = s.split_at(at);
    proof {
        encode_utf8_valid_utf8(tail@);
        assert(tail.spec_bytes()[0] == s.spec_bytes()[at as int]);
        lemma_boundary_after_ascii(tail.spec_bytes());
    }
    let (_, rest) = tail.split_at(1);
    proof {
        assert(rest.spec_bytes() =~= s.spec_bytes().skip(at + 1));
        assert(head.spec_bytes() =~= s.spec_bytes().take(at as int));
    }
    (head, rest)
}

/// Two texts are the same exactly when their encodings are.
pub proof fn lemma_bytes_determine_text(a: &str, b: &str)
    ensures
        (a.spec_bytes() == b.spec_bytes()) == (a@ == b@),
{
    encode_utf8_decode_utf8(a@);
    encode_utf8_decode_utf8(b@);
}

/// Compares two texts byte by byte.
pub fn same_text(a: &str, b: &str) -> (r: bool)
    ensures
        r == (a.spec_bytes() == b.spec_bytes()),
        r == (a@ == b@),
{
    proof {
        lemma_bytes_determine_text(a, b);
    }
    let x = a.as_bytes();
    let y = b.as_bytes();
    if x.len() != y.len() {
        return false;
    }
    let mut i: usize = 0;
    while i < x.len()
        invariant
            x@ == a.spec_bytes(),
            y@ == b.spec_bytes(),
            x@.len() == y@.len(),
            0 <= i <= x@.len(),
            forall|k: int| 0 <= k < i ==> x@[k] == y@[k],
        decreases x@.len() - i,
    {
        if x[i] != y[i] {
            assert(x@[i as int] != y@[i as int]);
            return false;
        }
        i = i + 1;
    }
    assert(x@ =~= y@);
    true
}

} // verus!
