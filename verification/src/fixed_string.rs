//! A string of bytes with a capacity fixed at compile time, filled by
//! appending; an append that does not fit is refused whole.
use vstd::prelude::*;
use vstd::utf8::valid_utf8;
use vstd::string::StringSliceAdditionalSpecFns;

verus! {

#[verifier::external_type_specification]
#[verifier::external_body]
pub struct ExUtf8Error(core::str::Utf8Error);

#[verifier::external_type_specification]
#[verifier::external_body]
pub struct ExFmtError(core::fmt::Error);

/// `core::str::from_utf8`: succeeds exactly on valid UTF-8 input, and then
/// the string it returns is made of those same bytes.
#[verifier::external_body]
fn str_from_utf8(v: &[u8]) -> (r: Result<&str, core::str::Utf8Error>)
    ensures
        r is Ok <==> valid_utf8(v@),
        r matches Ok(s) ==> s.spec_bytes() == v@,
{
    core::str::from_utf8(v)
}

/// `core::fmt::Error`: the unit error value of a refused write.
#[verifier::external_body]
pub(crate) fn fmt_error() -> core::fmt::Error {
    core::fmt::Error
}

/// Bytes below 0x80 are each a character of their own in UTF-8: a string
/// of them is valid UTF-8.
pub proof fn lemma_ascii_valid_utf8(s: Seq<u8>)
    requires
        forall|i: int| 0 <= i < s.len() ==> s[i] <= 0x7f,
    ensures
        valid_utf8(s),
    decreases s.len(),
{
    if s.len() > 0 {
        let b = s[0];
        assert((b & 0x7f) <= 0x7f) by (bit_vector);
        let rest = s.subrange(1, s.len() as int);
        assert(vstd::utf8::pop_first_scalar(s) =~= rest);
        lemma_ascii_valid_utf8(rest);
    }
}

/// Appending the bytes of a string to valid UTF-8 gives valid UTF-8.
pub proof fn lemma_str_append_valid_utf8(before: Seq<u8>, s: &str)
    ensures
        valid_utf8(before) ==> valid_utf8(before + s.spec_bytes()),
{
    vstd::utf8::encode_utf8_valid_utf8(s@);
    if valid_utf8(before) {
        vstd::utf8::valid_utf8_concat(before, s.spec_bytes());
    }
}

pub struct FixedString<const N: usize> {
    buf: [u8; N],
    size: usize,
}

impl<const N: usize> View for FixedString<N> {
    type V = Seq<u8>;

    /// The bytes written so far.
    closed spec fn view(&self) -> Seq<u8> {
        self.buf@.subrange(0, self.size as int)
    }
}

impl<const N: usize> FixedString<N> {
    #[verifier::type_invariant]
    closed spec fn inv(self) -> bool {
        self.size <= N
    }

    /// An empty string.
    pub fn new() -> (s: Self)
        ensures
            s@ == Seq::<u8>::empty(),
            valid_utf8(s@),
    {
        let buf: [u8; N] = vstd::array::array_fill_for_copy_types(0u8);
        let s = Self { buf, size: 0 };
        assert(s@ =~= Seq::<u8>::empty());
        s
    }

    /// The number of bytes written, which never exceeds the capacity `N`.
    pub fn len(&self) -> (n: usize)
        ensures
            n == self@.len(),
            n <= N,
    {
        proof {
            use_type_invariant(self);
        }
        self.size
    }

    /// The written bytes.
    pub fn as_bytes(&self) -> (b: &[u8])
        ensures
            b@ == self@,
    {
        proof {
            use_type_invariant(self);
        }
        vstd::slice::slice_subrange(vstd::array::array_as_slice(&self.buf), 0, self.size)
    }

    /// The written bytes as a string; an error where they are not valid UTF-8.
    pub fn as_str(&self) -> (r: Result<&str, core::str::Utf8Error>)
        ensures
            r is Ok <==> valid_utf8(self@),
            r matches Ok(s) ==> s.spec_bytes() == self@,
    {
        str_from_utf8(self.as_bytes())
    }

    /// The written bytes as a string, for a caller that knows them to be
    /// valid UTF-8.
    pub fn as_str_unchecked(&self) -> (s: &str)
        requires
            valid_utf8(self@),
        ensures
            s.spec_bytes() == self@,
    {
        match str_from_utf8(self.as_bytes()) {
            Ok(s) => s,
            Err(_) => {
                assert(false);
                ""
            },
        }
    }

    /// Appends `bytes` if they all fit in the remaining capacity; otherwise
    /// refuses and leaves the string unchanged.
    pub fn write_bytes(&mut self, bytes: &[u8]) -> (r: Result<(), core::fmt::Error>)
        ensures
            old(self)@.len() + bytes@.len() > N ==> r is Err && final(self)@ == old(self)@,
            old(self)@.len() + bytes@.len() <= N ==> r is Ok && final(self)@ == old(self)@
                + bytes@,
    {
        proof {
            use_type_invariant(&*self);
        }
        if bytes.len() > N - self.size {
            return Err(fmt_error());
        }
        let start = self.size;
        let ghost old_buf = self.buf@;
        let mut i: usize = 0;
        while i < bytes.len()
            invariant
                start == self.size,
                start + bytes@.len() <= N,
                i <= bytes@.len(),
                self.buf@.len() == N,
                forall|k: int| 0 <= k < start ==> self.buf@[k] == old_buf[k],
                forall|k: int| 0 <= k < i ==> self.buf@[start + k] == bytes@[k],
            decreases bytes@.len() - i,
        {
            self.buf[start + i] = bytes[i];
            i = i + 1;
        }
        self.size = start + bytes.len();
        assert(self@ =~= old(self)@ + bytes@);
        Ok(())
    }

    /// Appends the UTF-8 bytes of `s` if they all fit in the remaining
    /// capacity; otherwise refuses and leaves the string unchanged. Either
    /// way valid UTF-8 stays valid UTF-8, so a string filled only by
    /// `write_str` always reads back with `as_str`.
    pub fn write_str(&mut self, s: &str) -> (r: Result<(), core::fmt::Error>)
        ensures
            old(self)@.len() + s.spec_bytes().len() > N ==> r is Err && final(self)@ == old(
                self,
            )@,
            old(self)@.len() + s.spec_bytes().len() <= N ==> r is Ok && final(self)@ == old(
                self,
            )@ + s.spec_bytes(),
            valid_utf8(old(self)@) ==> valid_utf8(final(self)@),
    {
        proof {
            lemma_str_append_valid_utf8(self@, s);
        }
        self.write_bytes(s.as_bytes())
    }
}

} // verus!
