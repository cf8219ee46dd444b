//! Searching and cutting strings.
//!
//! Strings are modelled as sequences of characters. Offsets into a `&str` count
//! bytes of its UTF-8 encoding; `byte_len` relates the two.
use vstd::prelude::*;
use vstd::utf8::*;

verus! {

/// The number of bytes that the UTF-8 encoding of `s` takes.
pub open spec fn byte_len(s: Seq<char>) -> nat {
    encode_utf8(s).len()
}

/// The number of characters in front of the first `c` of `s`, or all of them
/// where `s` has no `c`.
pub open spec fn span(s: Seq<char>, c: char) -> int
    decreases s.len(),
{
    if s.len() == 0 || s[0] == c {
        0
    } else {
        1 + span(s.drop_first(), c)
    }
}

/// `span` points at the first `c`.
pub proof fn lemma_span(s: Seq<char>, c: char)
    ensures
        0 <= span(s, c) <= s.len(),
        forall|i: int| 0 <= i < span(s, c) ==> s[i] != c,
        span(s, c) < s.len() ==> s[span(s, c)] == c,
        span(s, c) < s.len() <==> s.contains(c),
    decreases s.len(),
{
    if s.len() != 0 && s[0] != c {
        let rest = s.drop_first();
        lemma_span(rest, c);
        assert forall|i: int| 0 <= i < span(s, c) implies s[i] != c by {
            if i > 0 {
                assert(s[i] == rest[i - 1]);
            }
        }
    }
}

/// Nothing but the position of the first `c` has the properties of `span`.
pub proof fn lemma_span_unique(s: Seq<char>, c: char, n: int)
    requires
        0 <= n <= s.len(),
        forall|i: int| 0 <= i < n ==> s[i] != c,
        n < s.len() ==> s[n] == c,
    ensures
        span(s, c) == n,
{
    lemma_span(s, c);
}

/// Encoding distributes over concatenation.
pub proof fn lemma_encode_concat(a: Seq<char>, b: Seq<char>)
    ensures
        encode_utf8(a + b) == encode_utf8(a) + encode_utf8(b),
    decreases a.len(),
{
    if a.len() == 0 {
        assert(a + b =~= b);
    } else {
        assert((a + b).drop_first() =~= a.drop_first() + b);
        lemma_encode_concat(a.drop_first(), b);
    }
}

/// Two strings with one encoding are one string.
pub proof fn lemma_encode_injective(a: Seq<char>, b: Seq<char>)
    requires
        encode_utf8(a) == encode_utf8(b),
    ensures
        a == b,
{
    encode_utf8_decode_utf8(a);
    encode_utf8_decode_utf8(b);
}

/// Where the first `k` characters end, a character boundary lies.
pub proof fn lemma_take_is_boundary(s: Seq<char>, k: int)
    requires
        0 <= k <= s.len(),
    ensures
        is_char_boundary(encode_utf8(s), byte_len(s.take(k)) as int),
        encode_utf8(s) == encode_utf8(s.take(k)) + encode_utf8(s.skip(k)),
        byte_len(s) == byte_len(s.take(k)) + byte_len(s.skip(k)),
    decreases k,
{
    encode_utf8_valid_utf8(s);
    assert(s =~= s.take(k) + s.skip(k));
    lemma_encode_concat(s.take(k), s.skip(k));
    if k == 0 {
        assert(s.take(0) =~= Seq::<char>::empty());
    } else {
        let rest = s.drop_first();
        lemma_take_is_boundary(rest, k - 1);
        encode_utf8_first_scalar(s);
        assert(pop_first_scalar(encode_utf8(s)) =~= encode_utf8(rest));
        assert(s.take(k).drop_first() =~= rest.take(k - 1));
    }
}

/// One character more adds the bytes of that character.
proof fn lemma_byte_len_step(s: Seq<char>, k: int)
    requires
        0 <= k < s.len(),
    ensures
        byte_len(s.take(k + 1)) == byte_len(s.take(k)) + encode_scalar(s[k] as u32).len(),
        byte_len(s.take(k + 1)) <= byte_len(s),
{
    let last = seq![s[k]];
    lemma_take_is_boundary(s, k + 1);
    assert(s.take(k + 1) =~= s.take(k) + last);
    lemma_encode_concat(s.take(k), last);
    reveal_with_fuel(encode_utf8, 2);
    assert(last.drop_first() =~= Seq::<char>::empty());
}

/// The number of bytes of the UTF-8 encoding of one character.
pub(crate) fn char_width(c: char) -> (n: usize)
    ensures
        n == encode_scalar(c as u32).len(),
        1 <= n <= 4,
{
    let v: u32 = c as u32;
    if v <= 0x7f {
        1
    } else if v <= 0x7ff {
        2
    } else if v <= 0xffff {
        3
    } else {
        4
    }
}

/// Cuts `s` at byte offset `at`, behind its first `k` characters.
fn split_after<'a>(s: &'a str, at: usize, k: Ghost<int>) -> (r: (&'a str, &'a str))
    requires
        0 <= k@ <= s@.len(),
        at == byte_len(s@.take(k@)),
    ensures
        r.0@ == s@.take(k@),
        r.1@ == s@.skip(k@),
{
    proof {
        lemma_take_is_boundary(s@, k@);
    }
    let r = s.split_at(at);
    proof {
        let head = encode_utf8(s@.take(k@));
        let tail = encode_utf8(s@.skip(k@));
        assert((head + tail).subrange(0, at as int) =~= head);
        assert((head + tail).subrange(at as int, (head + tail).len() as int) =~= tail);
        lemma_encode_injective(r.0@, s@.take(k@));
        lemma_encode_injective(r.1@, s@.skip(k@));
    }
    r
}

/// Cuts `s` in front of its first `c`; the second part is empty where `s` has
/// no `c`.
pub(crate) fn cut<'a>(s: &'a str, c: char) -> (r: (&'a str, &'a str))
    ensures
        r.0@ == s@.take(span(s@, c)),
        r.1@ == s@.skip(span(s@, c)),
{
    let len: usize = s.as_bytes().len();
    let mut at: usize = 0;
    let mut rest = s.chars();
    let ghost mut k: int = 0;
    assert(s@.take(0) =~= Seq::<char>::empty());
    assert(s@.skip(0) =~= s@);
    loop
        invariant
            0 <= k <= s@.len(),
            len == byte_len(s@),
            at == byte_len(s@.take(k)),
            vstd::std_specs::iter::IteratorSpec::remaining(&rest) == s@.skip(k),
            forall|i: int| 0 <= i < k ==> s@[i] != c,
        decreases s@.len() - k,
    {
        match rest.next() {
            Some(d) => {
                assert(d == s@[k]);
                if d == c {
                    proof {
                        lemma_span_unique(s@, c, k);
                    }
                    return split_after(s, at, Ghost(k));
                }
                proof {
                    lemma_byte_len_step(s@, k);
                    assert(s@.skip(k).drop_first() =~= s@.skip(k + 1));
                    k = k + 1;
                }
                at = at + char_width(d);
            },
            None => {
                proof {
                    lemma_span_unique(s@, c, k);
                }
                return split_after(s, at, Ghost(k));
            },
        }
    }
}

/// The parts of `s` in front of its first `c` and behind it, where it has a `c`.
pub(crate) fn split_once<'a>(s: &'a str, c: char) -> (r: Option<(&'a str, &'a str)>)
    ensures
        r is Some <==> s@.contains(c),
        r matches Some(p) ==> p.0@ == s@.take(span(s@, c)),
        r matches Some(p) ==> p.1@ == s@.skip(span(s@, c) + 1),
{
    proof {
        lemma_span(s@, c);
    }
    let (head, tail) = cut(s, c);
    if tail.is_empty() {
        None
    } else {
        proof {
            lemma_byte_len_step(tail@, 0);
            assert(tail@.take(0) =~= Seq::<char>::empty());
            assert(tail@.skip(1) =~= s@.skip(span(s@, c) + 1));
        }
        Some((head, split_after(tail, char_width(c), Ghost(1)).1))
    }
}

/// `s` without its first `n` characters, which are ASCII characters.
pub(crate) fn skip_ascii<'a>(s: &'a str, n: usize) -> (r: &'a str)
    requires
        n <= s@.len(),
        is_ascii_chars(s@.take(n as int)),
    ensures
        r@ == s@.skip(n as int),
{
    proof {
        is_ascii_chars_encode_utf8(s@.take(n as int));
    }
    split_after(s, n, Ghost(n as int)).1
}

/// Whether `needle` stands somewhere in `s`.
pub open spec fn occurs(needle: Seq<char>, s: Seq<char>) -> bool {
    exists|i: int| 0 <= i <= s.len() && needle.is_prefix_of(#[trigger] s.skip(i))
}

/// What is left of `s` once every leading copy of `prefix` is gone.
pub open spec fn trimmed(s: Seq<char>, prefix: Seq<char>) -> Seq<char>
    decreases s.len(),
{
    if prefix.len() > 0 && prefix.is_prefix_of(s) {
        trimmed(s.skip(prefix.len() as int), prefix)
    } else {
        s
    }
}

/// Whether `c` stands somewhere in `s`.
pub(crate) fn contains_char(s: &str, c: char) -> (b: bool)
    ensures
        b == s@.contains(c),
{
    proof {
        lemma_span(s@, c);
    }
    !cut(s, c).1.is_empty()
}

/// Whether `s` starts with `prefix`.
pub(crate) fn starts_with(s: &str, prefix: &str) -> (b: bool)
    ensures
        b == prefix@.is_prefix_of(s@),
{
    let mut rest = s.chars();
    let mut wanted = prefix.chars();
    let ghost mut k: int = 0;
    assert(s@.skip(0) =~= s@);
    assert(prefix@.skip(0) =~= prefix@);
    loop
        invariant
            0 <= k <= s@.len(),
            k <= prefix@.len(),
            vstd::std_specs::iter::IteratorSpec::remaining(&rest) == s@.skip(k),
            vstd::std_specs::iter::IteratorSpec::remaining(&wanted) == prefix@.skip(k),
            forall|i: int| 0 <= i < k ==> s@[i] == prefix@[i],
        decreases prefix@.len() - k,
    {
        match wanted.next() {
            Some(w) => {
                assert(w == prefix@[k]);
                match rest.next() {
                    Some(d) => {
                        assert(d == s@[k]);
                        if d != w {
                            assert(prefix@.len() <= s@.len() ==> s@.subrange(0, prefix@.len() as int)[k] == d);
                            return false;
                        }
                    },
                    None => {
                        return false;
                    },
                }
                proof {
                    assert(s@.skip(k).drop_first() =~= s@.skip(k + 1));
                    assert(prefix@.skip(k).drop_first() =~= prefix@.skip(k + 1));
                    k = k + 1;
                }
            },
            None => {
                assert(s@.subrange(0, k) =~= prefix@);
                return true;
            },
        }
    }
}

/// `s` without a `prefix` that it starts with.
pub(crate) fn skip_prefix<'a>(s: &'a str, prefix: &str) -> (r: &'a str)
    requires
        prefix@.is_prefix_of(s@),
    ensures
        r@ == s@.skip(prefix@.len() as int),
{
    let at: usize = prefix.as_bytes().len();
    assert(s@.take(prefix@.len() as int) =~= prefix@);
    split_after(s, at, Ghost(prefix@.len() as int)).1
}

/// `s` without every leading copy of `prefix`.
pub(crate) fn trim_start_matches<'a>(s: &'a str, prefix: &str) -> (r: &'a str)
    requires
        prefix@.len() > 0,
    ensures
        r@ == trimmed(s@, prefix@),
{
    let mut rest = s;
    while starts_with(rest, prefix)
        invariant
            prefix@.len() > 0,
            trimmed(rest@, prefix@) == trimmed(s@, prefix@),
        decreases rest@.len(),
    {
        rest = skip_prefix(rest, prefix);
    }
    rest
}

/// Whether `needle` stands somewhere in `s`.
pub(crate) fn contains_str(s: &str, needle: &str) -> (b: bool)
    ensures
        b == occurs(needle@, s@),
{
    let mut rest = s;
    let ghost mut k: int = 0;
    assert(s@.skip(0) =~= s@);
    loop
        invariant
            0 <= k <= s@.len(),
            rest@ == s@.skip(k),
            forall|i: int| 0 <= i < k ==> !needle@.is_prefix_of(#[trigger] s@.skip(i)),
        decreases s@.len() - k,
    {
        if starts_with(rest, needle) {
            return true;
        }
        match rest.chars().next() {
            Some(d) => {
                proof {
                    lemma_byte_len_step(rest@, 0);
                    assert(rest@.take(0) =~= Seq::<char>::empty());
                    assert(rest@.skip(1) =~= s@.skip(k + 1));
                    k = k + 1;
                }
                rest = split_after(rest, char_width(d), Ghost(1)).1;
            },
            None => {
                return false;
            },
        }
    }
}

} // verus!
