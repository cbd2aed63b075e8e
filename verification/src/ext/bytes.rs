//! Reading characters out of bytes.

use vstd::prelude::*;
use vstd::utf8::{decode_utf8, encode_utf8, valid_utf8};
use crate::const_vec::{encode_char, utf8_to_str};

verus! {

/// Bytes that can be read as characters.
pub trait BytesExt {
    /// The bytes.
    spec fn bytes(&self) -> Seq<u8>;

    fn as_bytes_slice(&self) -> (r: &[u8])
        ensures
            r@ == self.bytes(),
    ;

    /// A reader of the characters of the bytes.
    fn chars<'a>(&'a self) -> (r: Chars<'a>)
        ensures
            r.0@ == self.bytes(),
    {
        Chars(self.as_bytes_slice())
    }
}

impl BytesExt for Vec<u8> {
    open spec fn bytes(&self) -> Seq<u8> {
        self@
    }

    fn as_bytes_slice(&self) -> (r: &[u8]) {
        self.as_slice()
    }
}

impl<'b> BytesExt for &'b [u8] {
    open spec fn bytes(&self) -> Seq<u8> {
        (*self)@
    }

    fn as_bytes_slice(&self) -> (r: &[u8]) {
        *self
    }
}

/// Reads characters out of bytes.
#[derive(Clone, Copy, Debug)]
pub struct Chars<'a>(pub &'a [u8]);

/// The length of the shortest start of `b`, of at most 4 bytes, that is
/// valid UTF-8.
pub open spec fn first_valid_prefix(b: Seq<u8>) -> Option<int> {
    if b.len() >= 1 && valid_utf8(b.take(1)) {
        Some(1)
    } else if b.len() >= 2 && valid_utf8(b.take(2)) {
        Some(2)
    } else if b.len() >= 3 && valid_utf8(b.take(3)) {
        Some(3)
    } else if b.len() >= 4 && valid_utf8(b.take(4)) {
        Some(4)
    } else {
        None
    }
}

/// One step of [Chars::next] on the bytes `b`: the bytes left and what is
/// read.
///
/// Nothing is read from no bytes, nor from bytes that do not start with a
/// character of at most 4 bytes. Otherwise the first character is read,
/// and what is left are the first bytes of `b`, as many as that character
/// takes to encode (the bytes stay on the character).
///
/// Note: since what is left is the character just read rather than the
/// bytes after it, a second step on the result reads the same character
/// again; only the bytes past the first character are ever dropped. Used as
/// an iterator, [Chars] therefore never ends on bytes that start with a
/// character.
pub open spec fn chars_step(b: Seq<u8>) -> (Seq<u8>, Option<Option<char>>) {
    if b.len() == 0 {
        (b, None)
    } else {
        match first_valid_prefix(b) {
            None => (b, None),
            Some(i) => {
                let ch = decode_utf8(b.take(i))[0];
                let k = encode_utf8(seq![ch]).len();
                (if k <= b.len() { b.take(k as int) } else { Seq::empty() }, Some(Some(ch)))
            },
        }
    }
}

/// A prefix of bytes that is valid UTF-8 and not empty holds a character.
proof fn lemma_valid_nonempty(b: Seq<u8>, s: Seq<char>)
    requires
        b.len() > 0,
        encode_utf8(s) == b,
    ensures
        s.len() > 0,
{
    if s.len() == 0 {
        assert(encode_utf8(s) =~= Seq::<u8>::empty());
    }
}

impl<'a> Chars<'a> {
    /// The next character (see [chars_step]).
    pub fn next(&mut self) -> (r: Option<Option<char>>)
        ensures
            (final(self).0@, r) == chars_step(old(self).0@),
    {
        let b = self.0;
        if b.len() == 0 {
            return None;
        }
        let mut i: usize = 1;
        while i <= 4
            invariant
                1 <= i <= 5,
                b@ == old(self).0@,
                *self == *old(self),
                b@.len() > 0,
                forall|j: int| 1 <= j < i && j <= b@.len() ==> !valid_utf8(#[trigger] b@.take(j)),
            decreases 5 - i,
        {
            if i <= b.len() {
                let prefix = b.split_at(i).0;
                assert(prefix@ =~= b@.take(i as int));
                match utf8_to_str(prefix) {
                    Some(s) => {
                        proof {
                            vstd::utf8::encode_utf8_decode_utf8(s@);
                            lemma_valid_nonempty(prefix@, s@);
                        }
                        let ch = s.get_char(0);
                        let k = encode_char(ch).len();
                        assert(first_valid_prefix(b@) == Some(i as int));
                        assert(decode_utf8(b@.take(i as int)) == s@);
                        self.0 = if k <= b.len() {
                            let rest = b.split_at(k).0;
                            assert(rest@ =~= b@.take(k as int));
                            rest
                        } else {
                            let empty: &[u8] = &[];
                            assert(empty@ =~= Seq::<u8>::empty());
                            empty
                        };
                        return Some(Some(ch));
                    },
                    None => {},
                }
            }
            i = i + 1;
        }
        assert(first_valid_prefix(b@) is None);
        None
    }
}

} // verus!
