//! Fixed-capacity byte strings used as identity keys.

use vstd::prelude::*;
use vstd::slice::slice_subrange;
use vstd::std_specs::cmp::PartialEqSpecImpl;
use vstd::string::StringSliceAdditionalSpecFns;
use vstd::utf8::{decode_utf8, valid_utf8};

verus! {

/// The first `n` bytes of `s`, followed by zero bytes up to length `n`.
pub open spec fn padded(s: Seq<u8>, n: nat) -> Seq<u8> {
    Seq::new(n, |i: int| if i < s.len() { s[i] } else { 0u8 })
}

/// Length of `s` once its trailing zero bytes are dropped.
pub open spec fn trimmed_len(s: Seq<u8>) -> nat
    decreases s.len(),
{
    if s.len() == 0 {
        0
    } else if s.last() != 0 {
        s.len()
    } else {
        trimmed_len(s.drop_last())
    }
}

/// `s` without its trailing zero bytes.
pub open spec fn trimmed(s: Seq<u8>) -> Seq<u8> {
    s.take(trimmed_len(s) as int)
}

/// What `String::from_utf8_lossy` makes of `bytes`: the decoded text, with a
/// replacement character wherever the bytes are not UTF-8.
pub uninterp spec fn utf8_lossy(bytes: Seq<u8>) -> Seq<char>;

/// `std::str::from_utf8`: the bytes as text where they are valid UTF-8, and
/// nothing where they are not. The text has exactly the bytes given.
#[verifier::external_body]
fn str_from_utf8(bytes: &[u8]) -> (res: Option<&str>)
    ensures
        res is Some <==> valid_utf8(bytes@),
        res matches Some(s) ==> s.spec_bytes() == bytes@,
{
    std::str::from_utf8(bytes).ok()
}

/// `String::from_utf8_lossy`, as an owned string. On valid UTF-8 the result
/// is the decoded text.
#[verifier::external_body]
fn string_from_utf8_lossy(bytes: &[u8]) -> (res: String)
    ensures
        res@ == utf8_lossy(bytes@),
        valid_utf8(bytes@) ==> res@ == decode_utf8(bytes@),
{
    String::from_utf8_lossy(bytes).into_owned()
}

/// A string stored in exactly `N` bytes. Shorter values are padded with zero
/// bytes, longer ones are cut at `N` bytes; the padding is never part of the
/// content.
#[derive(Clone, Copy, Debug, Hash, Eq)]
pub struct FixedSizeString<const N: usize>([u8; N]);

/// Identity of a player.
pub type Puuid = FixedSizeString<78>;

/// Short name of a notable player.
pub type ProPlayerSlug = FixedSizeString<20>;

/// Identity of a match.
pub type RiotMatchId = FixedSizeString<17>;

/// A rendered "time since" label.
pub type DurationSince = FixedSizeString<14>;

impl<const N: usize> FixedSizeString<N> {
    /// The whole buffer, padding included.
    pub closed spec fn bytes(&self) -> Seq<u8> {
        self.0@
    }

    /// Stores the bytes of `value`, cut at `N` bytes and padded with zeros.
    pub fn new(value: &str) -> (res: Self)
        ensures
            res.bytes() == padded(value.spec_bytes(), N as nat),
    {
        let mut result = [0u8; N];
        let bytes = value.as_bytes();
        let len: usize = if bytes.len() < N { bytes.len() } else { N };
        let mut i: usize = 0;
        while i < len
            invariant
                i <= len,
                len <= N,
                len <= bytes@.len(),
                result@.len() == N,
                forall|j: int| 0 <= j < i ==> result@[j] == bytes@[j],
                forall|j: int| i <= j < N ==> result@[j] == 0u8,
            decreases len - i,
        {
            result[i] = bytes[i];
            i += 1;
        }
        assert(result@ =~= padded(value.spec_bytes(), N as nat));
        FixedSizeString(result)
    }

    /// The content as a slice of the buffer: everything before the trailing
    /// zero bytes.
    pub fn trim_end_zeros(&self) -> (res: &[u8])
        ensures
            res@ == self@,
    {
        let mut end: usize = N;
        assert(self.0@.take(N as int) =~= self.0@);
        while end > 0 && self.0[end - 1] == 0
            invariant
                end <= N,
                self.0@.len() == N,
                trimmed_len(self.0@) == trimmed_len(self.0@.take(end as int)),
            decreases end,
        {
            proof {
                let s = self.0@.take(end as int);
                assert(s.drop_last() =~= self.0@.take(end - 1));
            }
            end -= 1;
        }
        proof {
            let s = self.0@.take(end as int);
            assert(end > 0 ==> s.last() == self.0@[end - 1]);
            assert(trimmed_len(s) == end);
        }
        slice_subrange(self.0.as_slice(), 0, end)
    }

    /// The content as text, with a replacement character wherever it is not
    /// UTF-8 (a value cut in the middle of a character ends in one).
    pub fn to_string(&self) -> (res: String)
        ensures
            res@ == utf8_lossy(self@),
            valid_utf8(self@) ==> res@ == decode_utf8(self@),
    {
        string_from_utf8_lossy(self.trim_end_zeros())
    }
}

impl<const N: usize> PartialEq for FixedSizeString<N> {
    /// Two values are equal when their buffers agree byte for byte.
    fn eq(&self, other: &Self) -> (res: bool) {
        let mut i: usize = 0;
        while i < N
            invariant
                i <= N,
                self.0@.len() == N,
                other.0@.len() == N,
                forall|j: int| 0 <= j < i ==> self.0@[j] == other.0@[j],
            decreases N - i,
        {
            if self.0[i] != other.0[i] {
                return false;
            }
            i += 1;
        }
        assert(self.0@ =~= other.0@);
        true
    }
}

impl<const N: usize> PartialEqSpecImpl for FixedSizeString<N> {
    open spec fn obeys_eq_spec() -> bool {
        true
    }

    open spec fn eq_spec(&self, other: &Self) -> bool {
        self.bytes() == other.bytes()
    }
}

impl<const N: usize> AsRef<str> for FixedSizeString<N> {
    /// The content as text. The content must be valid UTF-8.
    fn as_ref(&self) -> (res: &str)
        requires
            valid_utf8(self@),
        ensures
            res.spec_bytes() == self@,
    {
        str_from_utf8(self.trim_end_zeros()).unwrap()
    }
}

impl<const N: usize> View for FixedSizeString<N> {
    type V = Seq<u8>;

    /// The content: the buffer without its trailing zero bytes.
    open spec fn view(&self) -> Seq<u8> {
        trimmed(self.bytes())
    }
}


/// Trimming never lengthens, and what is left ends in a byte that is not
/// zero.
pub proof fn lemma_trimmed_len_bounds(s: Seq<u8>)
    ensures
        trimmed_len(s) <= s.len(),
        trimmed_len(s) > 0 ==> s[trimmed_len(s) - 1] != 0,
        forall|i: int| trimmed_len(s) <= i < s.len() ==> s[i] == 0,
    decreases s.len(),
{
    if s.len() > 0 && s.last() == 0 {
        let t = s.drop_last();
        lemma_trimmed_len_bounds(t);
        assert forall|i: int| trimmed_len(s) <= i < s.len() implies s[i] == 0 by {
            if i < t.len() {
                assert(s[i] == t[i]);
            }
        }
    }
}

/// A value that fits in the buffer and does not end in a zero byte is kept
/// whole: its content is the value itself.
pub proof fn lemma_padded_keeps_content(s: Seq<u8>, n: nat)
    requires
        s.len() <= n,
        s.len() > 0 ==> s.last() != 0,
    ensures
        trimmed(padded(s, n)) == s,
    decreases n - s.len(),
{
    let p = padded(s, n);
    if s.len() == n {
        assert(p =~= s);
    } else {
        assert(p.last() == 0);
        assert(p.drop_last() =~= padded(s, (n - 1) as nat));
        lemma_padded_keeps_content(s, (n - 1) as nat);
        lemma_trimmed_len_bounds(p.drop_last());
        assert(trimmed(p) =~= trimmed(p.drop_last()));
    }
}

/// A longer value is cut at the capacity: the content is what is left of the
/// first `n` bytes once their trailing zero bytes are dropped.
pub proof fn lemma_padded_truncates(s: Seq<u8>, n: nat)
    requires
        s.len() >= n,
    ensures
        padded(s, n) == s.take(n as int),
        trimmed(padded(s, n)) == trimmed(s.take(n as int)),
{
    assert(padded(s, n) =~= s.take(n as int));
}

/// Two buffers of one capacity with the same content are the same buffer:
/// the padding carries no information.
pub proof fn lemma_same_content_same_bytes(a: Seq<u8>, b: Seq<u8>)
    requires
        a.len() == b.len(),
        trimmed(a) == trimmed(b),
    ensures
        a == b,
{
    lemma_trimmed_len_bounds(a);
    lemma_trimmed_len_bounds(b);
    assert(trimmed(a).len() == trimmed_len(a));
    assert(trimmed(b).len() == trimmed_len(b));
    assert forall|i: int| 0 <= i < a.len() implies a[i] == b[i] by {
        if i < trimmed_len(a) {
            assert(a[i] == trimmed(a)[i]);
            assert(b[i] == trimmed(b)[i]);
        }
    }
    assert(a =~= b);
}

impl<const N: usize> FixedSizeString<N> {
    /// The buffer has the capacity as its length.
    pub proof fn lemma_capacity(self)
        ensures
            self.bytes().len() == N,
            self@.len() <= N,
    {
        lemma_trimmed_len_bounds(self.bytes());
    }

    /// Two values of one capacity with the same content are equal: they
    /// agree in every byte of their buffers.
    pub proof fn lemma_same_content(self, other: Self)
        requires
            self@ == other@,
        ensures
            self.bytes() == other.bytes(),
    {
        lemma_same_content_same_bytes(self.bytes(), other.bytes());
    }
}

} // verus!
