//! Fixed-length byte buffers as text.
//!
//! Generated record types store fixed-length text in byte arrays, padded
//! with zero bytes.  [`Edit`] writes a string into such a buffer and
//! [`FromBytes`] reads one back, stopping at the first zero byte.
use vstd::prelude::*;

use vstd::slice::SliceAdditionalExecFns;
use vstd::string::StringSliceAdditionalSpecFns;
use vstd::utf8::valid_utf8;

verus! {

#[verifier::external_type_specification]
#[verifier::external_body]
pub struct ExUtf8Error(core::str::Utf8Error);

/// Relies on `core::str::from_utf8`: it succeeds exactly on valid UTF-8
/// and then returns the text whose bytes are the input.
pub assume_specification[ core::str::from_utf8 ](v: &[u8]) -> (r: Result<
    &str,
    core::str::Utf8Error,
>)
    ensures
        r is Ok <==> valid_utf8(v@),
        r matches Ok(s) ==> s.spec_bytes() =~= v@,
;

/// The prefix of a byte sequence up to its first zero byte, or all of
/// it when no byte is zero.
pub open spec fn nul_prefix(b: Seq<u8>) -> Seq<u8>
    decreases b.len(),
{
    if b.len() == 0 {
        Seq::empty()
    } else if b[0] == 0 {
        Seq::empty()
    } else {
        seq![b[0]] + nul_prefix(b.drop_first())
    }
}

/// A zero byte at a position cuts the prefix there.
pub proof fn lemma_nul_prefix_at(b: Seq<u8>, i: int)
    requires
        0 <= i < b.len(),
        b[i] == 0,
        forall|j: int| 0 <= j < i ==> b[j] != 0,
    ensures
        nul_prefix(b) =~= b.subrange(0, i),
    decreases i,
{
    if i > 0 {
        lemma_nul_prefix_at(b.drop_first(), i - 1);
        assert(b.drop_first().subrange(0, i - 1) =~= b.subrange(1, i));
    }
}

/// Without a zero byte the prefix is the whole sequence.
pub proof fn lemma_nul_prefix_all(b: Seq<u8>)
    requires
        forall|j: int| 0 <= j < b.len() ==> b[j] != 0,
    ensures
        nul_prefix(b) =~= b,
    decreases b.len(),
{
    if b.len() > 0 {
        lemma_nul_prefix_all(b.drop_first());
    }
}

/// Write a string into a fixed-length buffer, padding with zero bytes.
pub trait Edit {
    /// Copy the text's bytes to the front of the buffer and fill the
    /// rest with zero bytes.
    fn edit(&mut self, text: &str)
        requires
            text@.len() <= old(self).edit_len(),
            text.spec_bytes().len() <= old(self).edit_len(),
        ensures
            final(self).edit_model() =~= text.spec_bytes() + Seq::new(
                (old(self).edit_len() - text.spec_bytes().len()) as nat,
                |i: int| 0u8,
            ),
            final(self).edit_len() == old(self).edit_len(),
    ;

    /// The buffer's length, which editing never changes.
    spec fn edit_len(&self) -> nat;

    /// The buffer's bytes.
    spec fn edit_model(&self) -> Seq<u8>;
}

impl Edit for [u8] {
    open spec fn edit_len(&self) -> nat {
        self@.len()
    }

    open spec fn edit_model(&self) -> Seq<u8> {
        self@
    }

    fn edit(&mut self, text: &str) {
        let b = text.as_bytes();
        let mut i: usize = 0;
        while i < b.len()
            invariant
                0 <= i <= b@.len(),
                b@ == text.spec_bytes(),
                b@.len() <= self@.len(),
                self@.len() == old(self)@.len(),
                forall|j: int| 0 <= j < i ==> self@[j] == b@[j],
            decreases b.len() - i,
        {
            self.set(i, b[i]);
            i = i + 1;
        }
        let n = b.len();
        let mut k: usize = n;
        while k < self.len()
            invariant
                n == b@.len() <= self@.len(),
                n <= k <= self@.len(),
                b@ == text.spec_bytes(),
                self@.len() == old(self)@.len(),
                forall|j: int| 0 <= j < n ==> self@[j] == b@[j],
                forall|j: int| n <= j < k ==> self@[j] == 0u8,
            decreases self@.len() - k,
        {
            self.set(k, 0);
            k = k + 1;
        }
        proof {
            assert(self@ =~= text.spec_bytes() + Seq::new(
                (old(self)@.len() - text.spec_bytes().len()) as nat,
                |i: int| 0u8,
            ));
        }
    }
}

/// Read a fixed-length buffer back as text: the bytes before the first
/// zero byte, decoded as UTF-8.
pub trait FromBytes {
    /// The bytes the read looks at; an absent buffer reads as empty.
    spec fn byte_model(&self) -> Seq<u8>;

    /// The text stored in the buffer: its bytes up to the first zero
    /// byte, where they decode as UTF-8.
    fn from_bytes(&self) -> (r: Result<&str, core::str::Utf8Error>)
        ensures
            r is Ok <==> valid_utf8(nul_prefix(self.byte_model())),
            r matches Ok(s) ==> s.spec_bytes() =~= nul_prefix(self.byte_model()),
    ;
}

impl FromBytes for [u8] {
    open spec fn byte_model(&self) -> Seq<u8> {
        self@
    }

    fn from_bytes(&self) -> (r: Result<&str, core::str::Utf8Error>) {
        let mut i: usize = 0;
        while i < self.len()
            invariant
                0 <= i <= self@.len(),
                forall|j: int| 0 <= j < i ==> self@[j] != 0u8,
            decreases self@.len() - i,
        {
            if self[i] == 0 {
                proof {
                    lemma_nul_prefix_at(self@, i as int);
                }
                let ascii = vstd::slice::slice_subrange(self, 0, i);
                return core::str::from_utf8(ascii);
            }
            i = i + 1;
        }
        proof {
            lemma_nul_prefix_all(self@);
            assert(self@.subrange(0, self@.len() as int) =~= self@);
        }
        let all = vstd::slice::slice_subrange(self, 0, self.len());
        core::str::from_utf8(all)
    }
}

impl FromBytes for Option<&[u8]> {
    open spec fn byte_model(&self) -> Seq<u8> {
        match self {
            Some(b) => b@,
            None => Seq::empty(),
        }
    }

    fn from_bytes(&self) -> (r: Result<&str, core::str::Utf8Error>) {
        match self {
            Some(b) => b.from_bytes(),
            None => {
                proof {
                    reveal_strlit("");
                    assert(""@ =~= Seq::<char>::empty());
                    assert(valid_utf8(Seq::<u8>::empty()));
                    assert(nul_prefix(Seq::<u8>::empty()) =~= Seq::<u8>::empty());
                    assert("".spec_bytes() =~= Seq::<u8>::empty());
                }
                Ok("")
            },
        }
    }
}

impl<const N: usize> FromBytes for [u8; N] {
    open spec fn byte_model(&self) -> Seq<u8> {
        self@
    }

    fn from_bytes(&self) -> (r: Result<&str, core::str::Utf8Error>) {
        self.as_slice().from_bytes()
    }
}

impl<const N: usize> FromBytes for Option<[u8; N]> {
    open spec fn byte_model(&self) -> Seq<u8> {
        match self {
            Some(b) => b@,
            None => Seq::empty(),
        }
    }

    fn from_bytes(&self) -> (r: Result<&str, core::str::Utf8Error>) {
        match self {
            Some(b) => b.as_slice().from_bytes(),
            None => {
                proof {
                    reveal_strlit("");
                    assert(""@ =~= Seq::<char>::empty());
                    assert(valid_utf8(Seq::<u8>::empty()));
                    assert(nul_prefix(Seq::<u8>::empty()) =~= Seq::<u8>::empty());
                    assert("".spec_bytes() =~= Seq::<u8>::empty());
                }
                Ok("")
            },
        }
    }
}

} // verus!
