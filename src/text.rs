//! Strings: byte vectors whose contents are UTF-8 text.
use vstd::prelude::*;
use crate::vector::Vector;
use std::cmp::Ordering;

verus! {

/// A string is a vector of bytes holding UTF-8 text.
pub type String = Vector<u8>;

/// Lexicographic order of byte sequences; on valid UTF-8 it is the order of
/// the texts by code points.
pub open spec fn lex_cmp(a: Seq<u8>, b: Seq<u8>) -> Ordering
    decreases a.len(),
{
    if a.len() == 0 {
        if b.len() == 0 {
            Ordering::Equal
        } else {
            Ordering::Less
        }
    } else if b.len() == 0 {
        Ordering::Greater
    } else if a[0] < b[0] {
        Ordering::Less
    } else if a[0] > b[0] {
        Ordering::Greater
    } else {
        lex_cmp(a.drop_first(), b.drop_first())
    }
}

/// Two strings compare as equal exactly when their bytes are the same.
pub proof fn lemma_lex_cmp_equal(a: Seq<u8>, b: Seq<u8>)
    ensures
        (lex_cmp(a, b) == Ordering::Equal) <==> (a == b),
    decreases a.len(),
{
    if a.len() == 0 && b.len() == 0 {
        assert(a =~= b);
    }
    if a.len() != 0 && b.len() != 0 && a[0] == b[0] {
        lemma_lex_cmp_equal(a.drop_first(), b.drop_first());
        if a.drop_first() == b.drop_first() {
            assert(a =~= seq![a[0]] + a.drop_first());
            assert(b =~= seq![b[0]] + b.drop_first());
        }
        if a == b {
            assert(a.drop_first() =~= b.drop_first());
        }
    }
}

/// The text that UTF-8 bytes decode to, or `None` where they are not UTF-8.
pub uninterp spec fn utf8_text(b: Seq<u8>) -> Option<Seq<char>>;

/// Relies on `std::str::from_utf8`: `Ok` with the decoded text exactly when
/// the bytes are valid UTF-8.
#[verifier::external_body]
fn decode_utf8<'a>(b: &'a [u8]) -> (r: Option<&'a str>)
    ensures
        match r {
            Some(s) => utf8_text(b@) == Some(s@),
            None => utf8_text(b@).is_none(),
        },
{
    std::str::from_utf8(b).ok()
}

impl Vector<u8> {
    /// The bytes of the string.
    pub open spec fn content(&self, b: Seq<u8>) -> Seq<u8> {
        b.subrange(self.data_pos(), self.data_pos() + self.length(b))
    }

    /// The header and all the bytes it announces lie inside `b`.
    pub open spec fn text_fits(&self, b: Seq<u8>) -> bool {
        self.header_fits(b) && self.data_pos() + self.length(b) <= b.len()
    }

    /// The string's bytes, borrowed from the buffer.
    pub fn as_bytes<'a>(&self, buf: &'a [u8]) -> (r: &'a [u8])
        requires
            self.text_fits(buf@),
        ensures
            r@ == self.content(buf@),
    {
        let _len: usize = buf.len();
        let n = self.len(buf);
        let start = self.pos + 4;
        vstd::slice::slice_subrange(buf, start, start + n)
    }

    /// The string as text, borrowed from the buffer; `None` where the bytes
    /// are not UTF-8.
    pub fn as_str<'a>(&self, buf: &'a [u8]) -> (r: Option<&'a str>)
        requires
            self.text_fits(buf@),
        ensures
            match r {
                Some(s) => utf8_text(self.content(buf@)) == Some(s@),
                None => utf8_text(self.content(buf@)).is_none(),
            },
    {
        decode_utf8(self.as_bytes(buf))
    }

    /// Order of two strings, each in its own buffer, by their contents.
    pub fn text_cmp(&self, buf: &[u8], other: &Self, other_buf: &[u8]) -> (r: Ordering)
        requires
            self.text_fits(buf@),
            other.text_fits(other_buf@),
        ensures
            r == lex_cmp(self.content(buf@), other.content(other_buf@)),
    {
        let a = self.as_bytes(buf);
        let c = other.as_bytes(other_buf);
        let mut i: usize = 0;
        assert(a@.skip(0) =~= a@);
        assert(c@.skip(0) =~= c@);
        while i < a.len() && i < c.len()
            invariant
                i <= a@.len(),
                i <= c@.len(),
                a@ == self.content(buf@),
                c@ == other.content(other_buf@),
                lex_cmp(a@, c@) == lex_cmp(a@.skip(i as int), c@.skip(i as int)),
            decreases a@.len() - i,
        {
            assert(a@.skip(i as int)[0] == a@[i as int]);
            assert(c@.skip(i as int)[0] == c@[i as int]);
            if a[i] < c[i] {
                return Ordering::Less;
            }
            if a[i] > c[i] {
                return Ordering::Greater;
            }
            assert(a@.skip(i as int).drop_first() =~= a@.skip(i + 1));
            assert(c@.skip(i as int).drop_first() =~= c@.skip(i + 1));
            i = i + 1;
        }
        if a.len() == c.len() {
            Ordering::Equal
        } else if a.len() < c.len() {
            Ordering::Less
        } else {
            Ordering::Greater
        }
    }

    /// Whether two strings, each in its own buffer, hold the same text.
    pub fn text_eq(&self, buf: &[u8], other: &Self, other_buf: &[u8]) -> (r: bool)
        requires
            self.text_fits(buf@),
            other.text_fits(other_buf@),
        ensures
            r == (self.content(buf@) == other.content(other_buf@)),
    {
        proof {
            lemma_lex_cmp_equal(self.content(buf@), other.content(other_buf@));
        }
        matches!(self.text_cmp(buf, other, other_buf), Ordering::Equal)
    }
}

} // verus!
