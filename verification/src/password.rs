//! Fixed-capacity strings with zero padding, and the vault's record type.

use vstd::prelude::*;
use vstd::slice::slice_subrange;
use vstd::string::StringSliceAdditionalSpecFns;
use vstd::utf8::valid_utf8;

verus! {

/// Length of `s` once its trailing zero bytes are dropped.
pub open spec fn trimmed_len(s: Seq<u8>) -> nat
    decreases s.len(),
{
    if s.len() == 0 {
        0
    } else if s.last() != 0 {
        s.len()
    } else {
        trimmed_len(s.drop_last())
    }
}

/// `s` without its trailing zero bytes: the logical content of a buffer.
pub open spec fn trim(s: Seq<u8>) -> Seq<u8> {
    s.take(trimmed_len(s) as int)
}

/// The logical content of `s` followed by zero bytes up to length `n`.
pub open spec fn padded(s: Seq<u8>, n: nat) -> Seq<u8> {
    Seq::new(
        n,
        |i: int|
            if i < trimmed_len(s) {
                s[i]
            } else {
                0u8
            },
    )
}

/// No zero byte stands before the end of the logical content of `s`.
pub open spec fn no_embedded_null(s: Seq<u8>) -> bool {
    forall|i: int| 0 <= i < trimmed_len(s) ==> s[i] != 0
}

/// What `trimmed_len` picks: the end of the last non-zero byte.
pub proof fn lemma_trimmed_len(s: Seq<u8>)
    ensures
        trimmed_len(s) <= s.len(),
        trimmed_len(s) > 0 ==> s[trimmed_len(s) - 1] != 0,
        forall|i: int| trimmed_len(s) <= i < s.len() ==> s[i] == 0,
    decreases s.len(),
{
    if s.len() != 0 && s.last() == 0 {
        lemma_trimmed_len(s.drop_last());
        assert forall|i: int| trimmed_len(s) <= i < s.len() implies s[i] == 0 by {
            if i < s.len() - 1 {
                assert(s.drop_last()[i] == s[i]);
            }
        }
    }
}

/// A position with a non-zero byte before it and only zero bytes from it on
/// is the trimmed length.
pub proof fn lemma_trimmed_len_is(s: Seq<u8>, k: nat)
    requires
        k <= s.len(),
        k > 0 ==> s[k - 1] != 0,
        forall|i: int| k <= i < s.len() ==> s[i] == 0,
    ensures
        trimmed_len(s) == k,
    decreases s.len(),
{
    if s.len() != 0 && s.last() == 0 {
        lemma_trimmed_len_is(s.drop_last(), k);
    }
}

/// Padding keeps the logical content: storing bytes and reading them back
/// gives the bytes without their trailing zeros, and storing what was read
/// changes nothing more.
pub proof fn lemma_padded_keeps_content(s: Seq<u8>, n: nat)
    requires
        trimmed_len(s) <= n,
    ensures
        padded(s, n).len() == n,
        trimmed_len(padded(s, n)) == trimmed_len(s),
        trim(padded(s, n)) == trim(s),
        padded(padded(s, n), n) == padded(s, n),
        padded(trim(s), n) == padded(s, n),
        trim(trim(s)) == trim(s),
{
    lemma_trimmed_len(s);
    let k = trimmed_len(s);
    lemma_trimmed_len_is(padded(s, n), k);
    assert(trim(padded(s, n)) =~= trim(s));
    assert(padded(padded(s, n), n) =~= padded(s, n));
    lemma_trimmed_len_is(trim(s), k);
    assert(padded(trim(s), n) =~= padded(s, n));
    assert(trim(trim(s)) =~= trim(s));
}

/// A buffer that already has the full width is its own padded form.
pub proof fn lemma_padded_full_width(s: Seq<u8>)
    ensures
        padded(s, s.len()) == s,
{
    lemma_trimmed_len(s);
    assert(padded(s, s.len()) =~= s);
}

/// A string stored in a fixed-size array. A zero byte marks unused space, so
/// the content is what precedes the trailing zeros; a string that fills the
/// whole array has no terminator.
#[derive(Clone, Copy)]
pub struct ArrayString<const N: usize> {
    bytes: [u8; N],
}

impl<const N: usize> View for ArrayString<N> {
    type V = Seq<u8>;

    /// The logical content: the stored bytes without the zero padding.
    open spec fn view(&self) -> Seq<u8> {
        trim(self.raw())
    }
}

/// `core::str::from_utf8`: the bytes as a string slice when they are valid
/// UTF-8 and nothing otherwise; the slice then has exactly those bytes.
#[verifier::external_body]
fn str_from_utf8(v: &[u8]) -> (r: Option<&str>)
    ensures
        r is Some <==> valid_utf8(v@),
        r is Some ==> r->0.spec_bytes() == v@,
{
    core::str::from_utf8(v).ok()
}

impl<const N: usize> ArrayString<N> {
    /// All `N` stored bytes, padding included.
    pub closed spec fn raw(&self) -> Seq<u8> {
        self.bytes@
    }

    /// The stored bytes always number `N`.
    pub proof fn lemma_raw_len(&self)
        ensures
            self.raw().len() == N,
            self@.len() <= N,
    {
        lemma_trimmed_len(self.raw());
    }

    /// Two strings with the same stored bytes are the same value.
    pub proof fn lemma_raw_determines(a: Self, b: Self)
        requires
            a.raw() == b.raw(),
        ensures
            a == b,
    {
        assert(a.bytes =~= b.bytes);
    }

    /// The string that holds the content of `bytes`, zero-padded.
    pub closed spec fn spec_from_bytes(bytes: Seq<u8>) -> Self {
        choose|a: Self| a.raw() == padded(bytes, N as nat)
    }

    /// A string whose stored bytes are the padded content of `bytes` is
    /// the one that `spec_from_bytes` names.
    pub proof fn lemma_spec_from_bytes(a: Self, bytes: Seq<u8>)
        requires
            a.raw() == padded(bytes, N as nat),
        ensures
            a == Self::spec_from_bytes(bytes),
            Self::spec_from_bytes(bytes).raw() == padded(bytes, N as nat),
    {
        Self::lemma_raw_determines(a, Self::spec_from_bytes(bytes));
    }

    /// Storing the stored bytes of a string again gives the same string,
    /// and its content is those bytes without their trailing zeros.
    pub proof fn lemma_stored_bytes_reproduce(a: Self)
        ensures
            Self::spec_from_bytes(a.raw()) == a,
            Self::spec_from_bytes(a@) == a,
            trim(a.raw()) == a@,
            trimmed_len(a.raw()) <= N,
    {
        a.lemma_raw_len();
        lemma_trimmed_len(a.raw());
        lemma_padded_full_width(a.raw());
        lemma_padded_keeps_content(a.raw(), N as nat);
        Self::lemma_spec_from_bytes(a, a.raw());
        Self::lemma_spec_from_bytes(a, a@);
    }

    /// The content holds no zero byte before its end.
    pub open spec fn well_formed(&self) -> bool {
        no_embedded_null(self.raw())
    }

    /// Create an empty string.
    pub fn new() -> (r: ArrayString<N>)
        ensures
            r.raw() == Seq::new(N as nat, |i: int| 0u8),
            r@ == Seq::<u8>::empty(),
            r.well_formed(),
    {
        let r = ArrayString { bytes: [0u8;N] };
        proof {
            assert(r.bytes@ =~= Seq::new(N as nat, |i: int| 0u8));
            lemma_trimmed_len_is(r.bytes@, 0);
            assert(trim(r.bytes@) =~= Seq::<u8>::empty());
        }
        r
    }

    /// Set the string from a slice of bytes. Trailing zero bytes of the
    /// slice are padding and are not counted; what is left must fit.
    pub fn set_from_bytes(&mut self, bytes: &[u8])
        requires
            trimmed_len(bytes@) <= N,
        ensures
            *final(self) == Self::spec_from_bytes(bytes@),
            final(self).raw() == padded(bytes@, N as nat),
            final(self)@ == trim(bytes@),
            no_embedded_null(bytes@) ==> final(self).well_formed(),
    {
        let mut len: usize = bytes.len();
        proof {
            assert(bytes@.take(len as int) =~= bytes@);
        }
        while len > 0 && bytes[len - 1] == 0
            invariant
                len <= bytes@.len(),
                trimmed_len(bytes@) == trimmed_len(bytes@.take(len as int)),
            decreases len,
        {
            proof {
                assert(bytes@.take(len as int).drop_last() =~= bytes@.take(len - 1));
            }
            len -= 1;
        }
        proof {
            assert(bytes@.take(bytes@.len() as int) =~= bytes@);
            lemma_trimmed_len(bytes@);
            lemma_trimmed_len(bytes@.take(len as int));
            assert(trimmed_len(bytes@) == len);
        }
        let mut i: usize = 0;
        while i < N
            invariant
                i <= N,
                len <= N,
                len <= bytes@.len(),
                len == trimmed_len(bytes@),
                forall|j: int| 0 <= j < i ==> self.bytes@[j] == padded(bytes@, N as nat)[j],
            decreases N - i,
        {
            if i < len {
                self.bytes[i] = bytes[i];
            } else {
                self.bytes[i] = 0;
            }
            i += 1;
        }
        proof {
            assert(self.bytes@ =~= padded(bytes@, N as nat));
            lemma_padded_keeps_content(bytes@, N as nat);
            lemma_trimmed_len(bytes@);
            Self::lemma_spec_from_bytes(*self, bytes@);
        }
    }

    /// Returns a string initialized from bytes, as `set_from_bytes` stores
    /// them.
    pub fn from_bytes(bytes: &[u8]) -> (r: ArrayString<N>)
        requires
            trimmed_len(bytes@) <= N,
        ensures
            r == Self::spec_from_bytes(bytes@),
            r.raw() == padded(bytes@, N as nat),
            r@ == trim(bytes@),
            no_embedded_null(bytes@) ==> r.well_formed(),
    {
        let mut result = ArrayString::new();
        result.set_from_bytes(bytes);
        result
    }

    /// Number of bytes in the string.
    pub fn len(&self) -> (size: usize)
        ensures
            size == self@.len(),
            size == trimmed_len(self.raw()),
            size <= N,
    {
        let mut size: usize = N;
        proof {
            assert(self.bytes@.take(size as int) =~= self.bytes@);
        }
        while size > 0 && self.bytes[size - 1] == 0
            invariant
                size <= N,
                trimmed_len(self.bytes@) == trimmed_len(self.bytes@.take(size as int)),
            decreases size,
        {
            proof {
                assert(self.bytes@.take(size as int).drop_last() =~= self.bytes@.take(size - 1));
            }
            size -= 1;
        }
        proof {
            assert(self.bytes@.take(N as int) =~= self.bytes@);
            lemma_trimmed_len(self.bytes@);
            lemma_trimmed_len(self.bytes@.take(size as int));
        }
        size
    }

    /// The stored bytes, padding included.
    pub fn bytes(&self) -> (r: &[u8; N])
        ensures
            r@ == self.raw(),
    {
        &self.bytes
    }

    /// The content as a string slice. The content must be UTF-8.
    pub fn as_str(&self) -> (r: &str)
        requires
            valid_utf8(self@),
        ensures
            r.spec_bytes() == self@,
    {
        let len = self.len();
        let content = slice_subrange(self.bytes.as_slice(), 0, len);
        proof {
            assert(content@ =~= self@);
        }
        str_from_utf8(content).unwrap()
    }
}

impl<const N: usize> PartialEq for ArrayString<N> {
    /// Strings are equal when their contents are, whatever the padding.
    fn eq(&self, other: &Self) -> (r: bool) {
        let len = self.len();
        if other.len() != len {
            return false;
        }
        let mut i: usize = 0;
        while i < len
            invariant
                i <= len,
                len == self@.len(),
                len == other@.len(),
                len <= N,
                self@ == self.bytes@.take(len as int),
                other@ == other.bytes@.take(len as int),
                forall|j: int| 0 <= j < i ==> self@[j] == other@[j],
            decreases len - i,
        {
            if self.bytes[i] != other.bytes[i] {
                proof {
                    assert(self@[i as int] != other@[i as int]);
                }
                return false;
            }
            i += 1;
        }
        proof {
            assert(self@ =~= other@);
        }
        true
    }
}

impl<const N: usize> Eq for ArrayString<N> {

}

impl<const N: usize> vstd::std_specs::cmp::PartialEqSpecImpl for ArrayString<N> {
    open spec fn obeys_eq_spec() -> bool {
        true
    }

    open spec fn eq_spec(&self, other: &Self) -> bool {
        self@ == other@
    }
}

/// One entry of the vault: a name under which it is found, a login and a
/// password, each zero-padded to a fixed width.
#[derive(Clone, Copy)]
pub struct PasswordItem {
    pub name: ArrayString<32>,
    pub login: ArrayString<32>,
    pub pass: ArrayString<32>,
}

impl PasswordItem {
    /// An entry whose three fields are empty.
    pub fn new() -> (r: PasswordItem)
        ensures
            r.name@ == Seq::<u8>::empty(),
            r.login@ == Seq::<u8>::empty(),
            r.pass@ == Seq::<u8>::empty(),
            r.name.raw() == Seq::new(32, |i: int| 0u8),
            r.login.raw() == Seq::new(32, |i: int| 0u8),
            r.pass.raw() == Seq::new(32, |i: int| 0u8),
    {
        PasswordItem {
            name: ArrayString::new(),
            login: ArrayString::new(),
            pass: ArrayString::new(),
        }
    }

    /// Two entries with the same stored bytes in each field are the same
    /// value.
    pub proof fn lemma_raw_determines(a: Self, b: Self)
        requires
            a.name.raw() == b.name.raw(),
            a.login.raw() == b.login.raw(),
            a.pass.raw() == b.pass.raw(),
        ensures
            a == b,
    {
        ArrayString::lemma_raw_determines(a.name, b.name);
        ArrayString::lemma_raw_determines(a.login, b.login);
        ArrayString::lemma_raw_determines(a.pass, b.pass);
    }
}

} // verus!
