//! Small tools on strings: equality, order, and building a string character by
//! character.

use vstd::prelude::*;
use vstd::string::{StringExecFns, StringSliceAdditionalSpecFns};
use vstd::utf8::{encode_utf8, encode_utf8_decode_utf8};

verus! {

/// `String::push`: appends one character to the string and leaves the
/// characters before it as they are.
#[verifier::external_body]
pub(crate) fn push_char(s: &mut String, c: char)
    ensures
        final(s)@ == old(s)@.push(c),
{
    s.push(c);
}

/// The text of each string of a list.
pub open spec fn texts(strings: Seq<String>) -> Seq<Seq<char>> {
    Seq::new(strings.len(), |i: int| strings[i]@)
}

/// The texts of a list of string slices.
pub open spec fn slice_texts(words: Seq<&str>) -> Seq<Seq<char>> {
    Seq::new(words.len(), |i: int| words[i]@)
}

/// Lexicographic order on byte sequences; a proper prefix comes first.
pub open spec fn bytes_lt(a: Seq<u8>, b: Seq<u8>) -> bool
    decreases a.len(),
{
    if b.len() == 0 {
        false
    } else if a.len() == 0 {
        true
    } else if a[0] != b[0] {
        a[0] < b[0]
    } else {
        bytes_lt(a.drop_first(), b.drop_first())
    }
}

/// The order of strings: that of their UTF-8 bytes, as Rust orders `str`.
pub open spec fn text_lt(a: Seq<char>, b: Seq<char>) -> bool {
    bytes_lt(encode_utf8(a), encode_utf8(b))
}

/// Two texts with the same UTF-8 bytes are the same text.
pub proof fn lemma_same_bytes_same_text(a: Seq<char>, b: Seq<char>)
    requires
        encode_utf8(a) == encode_utf8(b),
    ensures
        a == b,
{
    encode_utf8_decode_utf8(a);
    encode_utf8_decode_utf8(b);
}

/// Whether `a` and `b` agree on their first `n` bytes.
pub open spec fn same_prefix(a: Seq<u8>, b: Seq<u8>, n: int) -> bool {
    n <= a.len() && n <= b.len() && forall|k: int| 0 <= k < n ==> a[k] == b[k]
}

/// What decides [`bytes_lt`] after a common prefix of `n` bytes.
pub proof fn lemma_bytes_lt_after_prefix(a: Seq<u8>, b: Seq<u8>, n: int)
    requires
        0 <= n,
        same_prefix(a, b, n),
    ensures
        bytes_lt(a, b) == (if n == b.len() {
            false
        } else if n == a.len() {
            true
        } else if a[n] != b[n] {
            a[n] < b[n]
        } else {
            bytes_lt(a.skip(n + 1), b.skip(n + 1))
        }),
    decreases n,
{
    if n > 0 {
        let a1 = a.drop_first();
        let b1 = b.drop_first();
        lemma_bytes_lt_after_prefix(a1, b1, n - 1);
        if n < a.len() && n < b.len() {
            assert(a1.skip(n) =~= a.skip(n + 1));
            assert(b1.skip(n) =~= b.skip(n + 1));
        }
    }
}

/// The order is irreflexive.
pub proof fn lemma_bytes_lt_irreflexive(a: Seq<u8>)
    ensures
        !bytes_lt(a, a),
{
    lemma_bytes_lt_after_prefix(a, a, a.len() as int);
}

/// The order is transitive.
pub proof fn lemma_bytes_lt_transitive(a: Seq<u8>, b: Seq<u8>, c: Seq<u8>)
    requires
        bytes_lt(a, b),
        bytes_lt(b, c),
    ensures
        bytes_lt(a, c),
    decreases a.len(),
{
    if a.len() > 0 && a[0] == b[0] && b[0] == c[0] {
        lemma_bytes_lt_transitive(a.drop_first(), b.drop_first(), c.drop_first());
    }
}

/// Of two byte sequences that differ, one comes before the other.
pub proof fn lemma_bytes_lt_total(a: Seq<u8>, b: Seq<u8>)
    ensures
        bytes_lt(a, b) || a == b || bytes_lt(b, a),
    decreases a.len(),
{
    if a.len() > 0 && b.len() > 0 && a[0] == b[0] {
        lemma_bytes_lt_total(a.drop_first(), b.drop_first());
        if a.drop_first() == b.drop_first() {
            assert(b =~= seq![b[0]] + b.drop_first());
        }
    }
}

/// The order of strings is transitive.
pub proof fn lemma_text_lt_transitive(a: Seq<char>, b: Seq<char>, c: Seq<char>)
    requires
        text_lt(a, b),
        text_lt(b, c),
    ensures
        text_lt(a, c),
{
    lemma_bytes_lt_transitive(encode_utf8(a), encode_utf8(b), encode_utf8(c));
}

/// Of two texts that differ, one comes before the other, and no text comes
/// before itself.
pub proof fn lemma_text_lt_total(a: Seq<char>, b: Seq<char>)
    ensures
        text_lt(a, b) || a == b || text_lt(b, a),
        !text_lt(a, a),
{
    lemma_bytes_lt_total(encode_utf8(a), encode_utf8(b));
    if encode_utf8(a) == encode_utf8(b) {
        lemma_same_bytes_same_text(a, b);
    }
    lemma_bytes_lt_irreflexive(encode_utf8(a));
}

/// Whether two strings hold the same text.
pub fn str_eq(a: &str, b: &str) -> (r: bool)
    ensures
        r == (a@ == b@),
{
    let x = a.as_bytes();
    let y = b.as_bytes();
    if x.len() != y.len() {
        return false;
    }
    let mut i: usize = 0;
    while i < x.len()
        invariant
            i <= x.len(),
            x.len() == y.len(),
            x@ == a.spec_bytes(),
            y@ == b.spec_bytes(),
            forall|k: int| 0 <= k < i ==> x@[k] == y@[k],
        decreases x.len() - i,
    {
        if x[i] != y[i] {
            return false;
        }
        i += 1;
    }
    proof {
        assert(x@ =~= y@);
        lemma_same_bytes_same_text(a@, b@);
    }
    true
}

/// Whether `a` comes before `b` in the order of strings.
pub fn str_lt(a: &str, b: &str) -> (r: bool)
    ensures
        r == text_lt(a@, b@),
{
    let x = a.as_bytes();
    let y = b.as_bytes();
    let mut i: usize = 0;
    while i < x.len() && i < y.len()
        invariant
            i <= x.len(),
            i <= y.len(),
            x@ == a.spec_bytes(),
            y@ == b.spec_bytes(),
            same_prefix(x@, y@, i as int),
        decreases x.len() - i,
    {
        if x[i] != y[i] {
            proof {
                lemma_bytes_lt_after_prefix(x@, y@, i as int);
            }
            return x[i] < y[i];
        }
        i += 1;
    }
    proof {
        lemma_bytes_lt_after_prefix(x@, y@, i as int);
    }
    i < y.len()
}

/// All the texts of a list, one after the other.
pub open spec fn flat(items: Seq<Seq<char>>) -> Seq<char>
    decreases items.len(),
{
    if items.len() == 0 {
        seq![]
    } else {
        flat(items.drop_last()) + items.last()
    }
}

/// The texts of a list with a separator between each two.
pub open spec fn joined(items: Seq<Seq<char>>, separator: Seq<char>) -> Seq<char>
    decreases items.len(),
{
    if items.len() == 0 {
        seq![]
    } else if items.len() == 1 {
        items[0]
    } else {
        joined(items.drop_last(), separator) + separator + items.last()
    }
}

/// How one character stands inside a Rust string literal.
pub open spec fn escaped_char(c: char) -> Seq<char> {
    if c == '"' {
        seq!['\\', '"']
    } else if c == '\\' {
        seq!['\\', '\\']
    } else if c == '\n' {
        seq!['\\', 'n']
    } else if c == '\r' {
        seq!['\\', 'r']
    } else if c == '\t' {
        seq!['\\', 't']
    } else {
        seq![c]
    }
}

/// A text as it stands inside a Rust string literal.
pub open spec fn escaped(text: Seq<char>) -> Seq<char>
    decreases text.len(),
{
    if text.len() == 0 {
        seq![]
    } else {
        escaped(text.drop_last()) + escaped_char(text.last())
    }
}

/// The Rust string literal that holds a text.
pub open spec fn literal(text: Seq<char>) -> Seq<char> {
    seq!['"'] + escaped(text) + seq!['"']
}

/// Concatenates the strings of a list.
pub fn concatenate(items: &Vec<String>) -> (r: String)
    ensures
        r@ == flat(texts(items@)),
{
    let mut out = String::new();
    let mut k: usize = 0;
    while k < items.len()
        invariant
            k <= items.len(),
            out@ == flat(texts(items@).take(k as int)),
        decreases items.len() - k,
    {
        out.append(items[k].as_str());
        k += 1;
        proof {
            let now = texts(items@).take(k as int);
            assert(now.drop_last() =~= texts(items@).take(k - 1));
        }
    }
    assert(texts(items@).take(k as int) =~= texts(items@));
    out
}

/// Joins the strings of a list with a separator.
pub fn join(items: &Vec<String>, separator: &str) -> (r: String)
    ensures
        r@ == joined(texts(items@), separator@),
{
    let mut out = String::new();
    let mut k: usize = 0;
    while k < items.len()
        invariant
            k <= items.len(),
            out@ == joined(texts(items@).take(k as int), separator@),
        decreases items.len() - k,
    {
        if k > 0 {
            out.append(separator);
        }
        out.append(items[k].as_str());
        k += 1;
        proof {
            let now = texts(items@).take(k as int);
            assert(now.drop_last() =~= texts(items@).take(k - 1));
        }
    }
    assert(texts(items@).take(k as int) =~= texts(items@));
    out
}

/// Writes a text as a Rust string literal.
pub fn quote(text: &str) -> (r: String)
    ensures
        r@ == literal(text@),
{
    let mut body = String::new();
    for c in it: text.chars()
        invariant
            it.seq() == text@,
            body@ == escaped(text@.take(it.index())),
    {
        if c == '"' {
            push_char(&mut body, '\\');
            push_char(&mut body, '"');
        } else if c == '\\' {
            push_char(&mut body, '\\');
            push_char(&mut body, '\\');
        } else if c == '\n' {
            push_char(&mut body, '\\');
            push_char(&mut body, 'n');
        } else if c == '\r' {
            push_char(&mut body, '\\');
            push_char(&mut body, 'r');
        } else if c == '\t' {
            push_char(&mut body, '\\');
            push_char(&mut body, 't');
        } else {
            push_char(&mut body, c);
        }
        proof {
            let now = text@.take(it.index() + 1);
            assert(now.drop_last() =~= text@.take(it.index()));
        }
    }
    assert(text@.take(text@.len() as int) =~= text@);
    let mut out = String::new();
    push_char(&mut out, '"');
    out.append(body.as_str());
    push_char(&mut out, '"');
    out
}

} // verus!
