//! Drawing the program on the terminal.

use vstd::prelude::*;

pub mod state;
pub mod damage;

verus! {

/// A command line option given as bytes: `-` and a byte, or `--` and a
/// name.
#[derive(Clone, Copy, Debug, PartialEq, Eq)]
pub enum ByteOpt<'a> {
    Short(u8),
    Long(&'a [u8]),
}

/// A value shown to the user.
#[derive(Clone, Copy, Debug, PartialEq)]
pub struct Display<T>(pub T);

/// Values that can be shown to the user.
pub trait IntoDisplay: Sized {
    fn display(self) -> (r: Display<Self>)
        ensures
            r.0 == self,
    {
        Display(self)
    }
}

impl<'a> IntoDisplay for ByteOpt<'a> {}

/// How the `bstr` crate shows bytes: valid UTF-8 as the text it encodes,
/// other bytes replaced.
pub uninterp spec fn bstr_text(bytes: Seq<u8>) -> Seq<char>;

/// `bstr::BStr`'s `Display`: bytes that are valid UTF-8 are shown as the
/// text they encode; the crate replaces invalid sequences by U+FFFD, which
/// is left unsaid here.
#[verifier::external_body]
fn bstr_to_string(bytes: &[u8]) -> (r: String)
    ensures
        r@ == bstr_text(bytes@),
        vstd::utf8::valid_utf8(bytes@) ==> r@ == vstd::utf8::decode_utf8(bytes@),
{
    bstr::BStr::new(bytes).to_string()
}

/// How an option is shown: `-` and the byte as a character, or `--` and
/// the name.
pub open spec fn opt_text(opt: ByteOpt) -> Seq<char> {
    match opt {
        ByteOpt::Short(b) => seq!['-', b as char],
        ByteOpt::Long(long) => seq!['-', '-'] + bstr_text(long@),
    }
}

impl<'a> Display<ByteOpt<'a>> {
    /// The text of the option (see [opt_text]).
    pub fn to_text(&self) -> (r: String)
        ensures
            r@ == opt_text(self.0),
    {
        match self.0 {
            ByteOpt::Short(b) => {
                let mut r = crate::text::to_string("-");
                crate::text::push_char(&mut r, b as char);
                proof {
                    reveal_strlit("-");
                }
                r
            },
            ByteOpt::Long(long) => {
                let mut r = crate::text::to_string("--");
                let name = bstr_to_string(long);
                crate::text::push_str(&mut r, name.as_str());
                proof {
                    reveal_strlit("--");
                }
                r
            },
        }
    }
}

} // verus!
