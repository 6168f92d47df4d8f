//! Byte strings that hold no NUL byte, as the mux protocol requires of
//! every string it carries.
use vstd::prelude::*;

verus! {

/// True when no byte of `s` is zero.
pub open spec fn no_nul(s: Seq<u8>) -> bool {
    forall|i: int| 0 <= i < s.len() ==> s[i] != 0u8
}

/// `s` with every zero byte taken out, the order of the others kept.
pub open spec fn strip_nul(s: Seq<u8>) -> Seq<u8>
    decreases s.len(),
{
    if s.len() == 0 {
        Seq::empty()
    } else if s.last() == 0u8 {
        strip_nul(s.drop_last())
    } else {
        strip_nul(s.drop_last()).push(s.last())
    }
}

pub proof fn lemma_strip_nul_no_nul(s: Seq<u8>)
    ensures
        no_nul(strip_nul(s)),
        strip_nul(s).len() <= s.len(),
    decreases s.len(),
{
    if s.len() > 0 {
        lemma_strip_nul_no_nul(s.drop_last());
    }
}

/// Copies `bytes` without its zero bytes.
pub fn remove_nul_bytes(bytes: &[u8]) -> (r: Vec<u8>)
    ensures
        r@ == strip_nul(bytes@),
        no_nul(r@),
{
    let mut r: Vec<u8> = Vec::new();
    let mut i: usize = 0;
    while i < bytes.len()
        invariant
            i <= bytes@.len(),
            r@ == strip_nul(bytes@.subrange(0, i as int)),
        decreases bytes@.len() - i,
    {
        proof {
            assert(bytes@.subrange(0, i + 1).drop_last() =~= bytes@.subrange(0, i as int));
        }
        if bytes[i] != 0 {
            r.push(bytes[i]);
        }
        i += 1;
    }
    proof {
        assert(bytes@.subrange(0, bytes@.len() as int) =~= bytes@);
        lemma_strip_nul_no_nul(bytes@);
    }
    r
}

/// Copies `bytes` without its zero bytes; the copy is no longer.
pub fn remove_nul_bytes_len(bytes: &[u8]) -> (r: Vec<u8>)
    ensures
        r@ == strip_nul(bytes@),
        no_nul(r@),
        r@.len() <= bytes@.len(),
{
    proof {
        lemma_strip_nul_no_nul(bytes@);
    }
    remove_nul_bytes(bytes)
}

/// Index of the first zero byte of `bytes`, if there is one.
fn find_nul(bytes: &[u8]) -> (r: Option<usize>)
    ensures
        r is None <==> no_nul(bytes@),
        r matches Some(i) ==> i < bytes@.len() && bytes@[i as int] == 0u8,
{
    let mut i: usize = 0;
    while i < bytes.len()
        invariant
            i <= bytes@.len(),
            forall|j: int| 0 <= j < i ==> bytes@[j] != 0u8,
        decreases bytes@.len() - i,
    {
        if bytes[i] == 0 {
            return Some(i);
        }
        i += 1;
    }
    None
}

/// A borrowed byte string without NUL bytes.
#[derive(Debug, Clone, Copy, PartialEq, Eq, Hash)]
pub struct NonZeroByteSlice<'a> {
    bytes: &'a [u8],
}

impl<'a> View for NonZeroByteSlice<'a> {
    type V = Seq<u8>;

    closed spec fn view(&self) -> Seq<u8> {
        self.bytes@
    }
}

impl<'a> NonZeroByteSlice<'a> {
    pub open spec fn wf(&self) -> bool {
        no_nul(self@)
    }

    /// Wraps `bytes`, or returns `None` if it holds a zero byte.
    pub fn new(bytes: &'a [u8]) -> (r: Option<NonZeroByteSlice<'a>>)
        ensures
            r is Some <==> no_nul(bytes@),
            r matches Some(s) ==> s@ == bytes@ && s.wf(),
    {
        match find_nul(bytes) {
            Some(_) => None,
            None => Some(NonZeroByteSlice { bytes }),
        }
    }

    /// The bytes, which hold no zero.
    pub fn into_inner(&self) -> (r: &'a [u8])
        ensures
            r@ == self@,
    {
        self.bytes
    }

    /// An owned copy.
    pub fn to_owned(&self) -> (r: NonZeroByteVec)
        requires
            self.wf(),
        ensures
            r@ == self@,
            r.wf(),
    {
        NonZeroByteVec::from_slice(self)
    }
}

/// The input held a NUL byte.
#[derive(Debug, Clone, Copy, PartialEq, Eq)]
pub struct NullByteError;

/// An owned byte string without NUL bytes.
#[derive(Debug, Clone, PartialEq, Eq, Hash)]
pub struct NonZeroByteVec {
    bytes: Vec<u8>,
}

impl View for NonZeroByteVec {
    type V = Seq<u8>;

    closed spec fn view(&self) -> Seq<u8> {
        self.bytes@
    }
}

impl NonZeroByteVec {
    pub open spec fn wf(&self) -> bool {
        no_nul(self@)
    }

    /// Takes `bytes`, or returns `None` if it holds a zero byte.
    pub fn new(bytes: Vec<u8>) -> (r: Option<NonZeroByteVec>)
        ensures
            r is Some <==> no_nul(bytes@),
            r matches Some(v) ==> v@ == bytes@ && v.wf(),
    {
        match find_nul(bytes.as_slice()) {
            Some(_) => None,
            None => Some(NonZeroByteVec { bytes }),
        }
    }

    /// Takes `bytes` with its zero bytes removed.
    pub fn from_bytes_remove_nul(bytes: Vec<u8>) -> (r: NonZeroByteVec)
        ensures
            r@ == strip_nul(bytes@),
            r.wf(),
    {
        NonZeroByteVec { bytes: remove_nul_bytes(bytes.as_slice()) }
    }

    /// Copies a borrowed string.
    pub fn from_slice(slice: &NonZeroByteSlice) -> (r: NonZeroByteVec)
        requires
            slice.wf(),
        ensures
            r@ == slice@,
            r.wf(),
    {
        let src = slice.into_inner();
        let mut bytes: Vec<u8> = Vec::new();
        let mut i: usize = 0;
        while i < src.len()
            invariant
                i <= src@.len(),
                bytes@ == src@.subrange(0, i as int),
            decreases src@.len() - i,
        {
            bytes.push(src[i]);
            i += 1;
            proof {
                assert(bytes@ =~= src@.subrange(0, i as int));
            }
        }
        proof {
            assert(src@.subrange(0, src@.len() as int) =~= src@);
        }
        NonZeroByteVec { bytes }
    }

    /// Appends a byte, which must not be zero.
    pub fn push(&mut self, byte: u8)
        requires
            old(self).wf(),
            byte != 0,
        ensures
            final(self)@ == old(self)@.push(byte),
            final(self).wf(),
    {
        self.bytes.push(byte);
    }

    /// Borrows the bytes as a [`NonZeroByteSlice`].
    pub fn as_non_zero_slice(&self) -> (r: NonZeroByteSlice<'_>)
        requires
            self.wf(),
        ensures
            r@ == self@,
            r.wf(),
    {
        NonZeroByteSlice { bytes: self.bytes.as_slice() }
    }

    /// The bytes.
    pub fn as_bytes(&self) -> (r: &[u8])
        ensures
            r@ == self@,
    {
        self.bytes.as_slice()
    }

    /// Gives the bytes back.
    pub fn into_inner(self) -> (r: Vec<u8>)
        ensures
            r@ == self@,
    {
        self.bytes
    }
}

} // verus!
