//! Fixed-capacity byte arrays and NUL-terminated string arrays.

use vstd::prelude::*;

verus! {

/// The bytes of `s` before its first NUL (all of `s` if it holds none).
pub open spec fn c_prefix(s: Seq<u8>) -> Seq<u8>
    decreases s.len(),
{
    if s.len() == 0 {
        s
    } else if s[0] == 0 {
        Seq::empty()
    } else {
        seq![s[0]] + c_prefix(s.drop_first())
    }
}

/// Whether `s` holds no NUL byte.
pub open spec fn no_nul(s: Seq<u8>) -> bool {
    forall|i: int| 0 <= i < s.len() ==> s[i] != 0
}

/// The text that an array of `n` bytes keeps of `bytes`: what comes before
/// the first NUL, cut to `n - 1` bytes so that a terminator always fits.
pub open spec fn fitted(bytes: Seq<u8>, n: nat) -> Seq<u8> {
    let t = c_prefix(bytes);
    if t.len() + 1 <= n {
        t
    } else {
        t.subrange(0, n - 1)
    }
}

/// The prefix before the first NUL is the run of non-NUL bytes that ends at
/// a NUL or at the end.
pub proof fn lemma_c_prefix(s: Seq<u8>, k: int)
    requires
        0 <= k <= s.len(),
        no_nul(s.subrange(0, k)),
        k == s.len() || s[k] == 0,
    ensures
        c_prefix(s) == s.subrange(0, k),
    decreases s.len(),
{
    if s.len() == 0 {
        assert(s.subrange(0, k) =~= s);
    } else if k == 0 {
        assert(s.subrange(0, k) =~= Seq::<u8>::empty());
    } else {
        assert(s.subrange(0, k)[0] == s[0]);
        let t = s.drop_first();
        assert forall|i: int| 0 <= i < k - 1 implies #[trigger] t.subrange(0, k - 1)[i] != 0 by {
            assert(s.subrange(0, k)[i + 1] != 0);
        }
        lemma_c_prefix(t, k - 1);
        assert(s.subrange(0, k) =~= seq![s[0]] + t.subrange(0, k - 1));
    }
}

/// The prefix before the first NUL holds no NUL and is at most as long.
pub proof fn lemma_c_prefix_shape(s: Seq<u8>)
    ensures
        no_nul(c_prefix(s)),
        c_prefix(s).len() <= s.len(),
        c_prefix(s) == s.subrange(0, c_prefix(s).len() as int),
        c_prefix(s).len() == s.len() || s[c_prefix(s).len() as int] == 0,
    decreases s.len(),
{
    if s.len() == 0 {
        assert(s.subrange(0, 0) =~= s);
    } else if s[0] == 0 {
        assert(s.subrange(0, 0) =~= Seq::<u8>::empty());
    } else {
        let t = s.drop_first();
        lemma_c_prefix_shape(t);
        let p = c_prefix(t);
        assert(c_prefix(s) == seq![s[0]] + p);
        assert forall|i: int| 0 <= i < c_prefix(s).len() implies c_prefix(s)[i] != 0 by {
            if i > 0 {
                assert(c_prefix(s)[i] == p[i - 1]);
            }
        }
        assert(s.subrange(0, p.len() + 1 as int) =~= seq![s[0]] + t.subrange(0, p.len() as int));
    }
}

/// Bytes after the first NUL do not matter: two byte strings that agree
/// up to and including a NUL have the same text.
pub proof fn lemma_c_prefix_ignores_tail(s: Seq<u8>, t: Seq<u8>, k: int)
    requires
        0 <= k < s.len(),
        k < t.len(),
        s[k] == 0,
        s.subrange(0, k + 1) == t.subrange(0, k + 1),
    ensures
        c_prefix(s) == c_prefix(t),
{
    lemma_c_prefix_shape(s);
    lemma_c_prefix_shape(t);
    let p = c_prefix(s);
    let q = c_prefix(t);
    assert(t[k] == t.subrange(0, k + 1)[k]);
    if p.len() > k {
        assert(p[k] == s[k]);
    }
    if q.len() > k {
        assert(q[k] == t[k]);
    }
    assert forall|i: int| 0 <= i <= k implies s[i] == t[i] by {
        assert(s.subrange(0, k + 1)[i] == s[i]);
        assert(t.subrange(0, k + 1)[i] == t[i]);
    }
    if p.len() < q.len() {
        assert(q[p.len() as int] == t[p.len() as int]);
    } else if q.len() < p.len() {
        assert(p[q.len() as int] == s[q.len() as int]);
    }
    assert(p =~= q);
}

/// The text that lossy UTF-8 decoding gives for `bytes`.
pub uninterp spec fn utf8_lossy(bytes: Seq<u8>) -> Seq<char>;

/// Relies on `String::from_utf8_lossy`: it decodes UTF-8, replacing each
/// invalid sequence by U+FFFD, so its result depends on the bytes alone,
/// and no bytes decode to no text.
#[verifier::external_body]
fn decode_lossy(bytes: &[u8]) -> (r: String)
    ensures
        r@ == utf8_lossy(bytes@),
        bytes@.len() == 0 ==> r@.len() == 0,
{
    String::from_utf8_lossy(bytes).into_owned()
}

/// An array of `N` bytes.
#[derive(Debug, PartialEq, Eq, Hash)]
pub struct ByteArray<const N: usize> {
    bytes: Vec<u8>,
}

impl<const N: usize> ByteArray<N> {
    #[verifier::type_invariant]
    spec fn inv(&self) -> bool {
        self.bytes.len() == N
    }

    pub closed spec fn view(&self) -> Seq<u8> {
        self.bytes@
    }

    /// An array of `N` zero bytes.
    pub fn zeroed() -> (r: Self)
        ensures
            r.view() == Seq::new(N as nat, |i: int| 0u8),
    {
        let bytes = vec![0u8; N];
        assert(bytes@ =~= Seq::new(N as nat, |i: int| 0u8));
        ByteArray { bytes }
    }

    /// Wraps an array of `N` bytes.
    pub fn from_array(array: [u8; N]) -> (r: Self)
        ensures
            r.view() == array@,
    {
        let bytes = vstd::slice::slice_to_vec(array.as_slice());
        ByteArray { bytes }
    }

    /// The bytes of this array.
    pub fn as_slice(&self) -> (r: &[u8])
        ensures
            r@ == self.view(),
            r@.len() == N,
    {
        proof {
            use_type_invariant(self);
        }
        self.bytes.as_slice()
    }
}

/// An array of `N` bytes that holds a NUL-terminated string.
///
/// Only the bytes before the first NUL are significant: two arrays that
/// agree on them are equal and hash alike, whatever follows. The array is
/// kept with zeros after its text, so its stored bytes are determined by
/// the text alone.
#[derive(Debug, Hash)]
pub struct StringArray<const N: usize> {
    chars: Vec<u8>,
    len: usize,
}

impl<const N: usize> StringArray<N> {
    #[verifier::type_invariant]
    spec fn inv(&self) -> bool {
        &&& self.chars.len() == N
        &&& self.len < N
        &&& forall|i: int| 0 <= i < self.len ==> self.chars@[i] != 0
        &&& forall|i: int| self.len <= i < N ==> self.chars@[i] == 0
    }

    /// The text of this string: the bytes before its terminator.
    pub closed spec fn view(&self) -> Seq<u8> {
        self.chars@.subrange(0, self.len as int)
    }

    /// The stored bytes: the text, then zeros up to `N`.
    pub open spec fn stored(&self) -> Seq<u8> {
        self.view() + Seq::new((N - self.view().len()) as nat, |i: int| 0u8)
    }

    /// String arrays that compare equal store the same bytes, so anything
    /// computed from the stored bytes, such as their hash, agrees too.
    pub proof fn lemma_equal_means_same_storage(&self, other: &Self)
        requires
            self.view() == other.view(),
        ensures
            self.stored() == other.stored(),
    {
    }

    proof fn lemma_stored(&self)
        requires
            self.inv(),
        ensures
            self.chars@ == self.stored(),
            no_nul(self.view()),
            self.view().len() < N,
    {
        assert(self.chars@ =~= self.stored());
    }

    /// Keeps the text of `bytes` (see `fitted`).
    fn from_text_of(bytes: &[u8]) -> (r: Self)
        requires
            N >= 1,
        ensures
            r.view() == fitted(bytes@, N as nat),
    {
        let mut chars = vec![0u8; N];
        let mut index: usize = 0;
        while index < bytes.len() && index + 1 < N
            invariant
                N >= 1,
                chars@.len() == N,
                index < N,
                index <= bytes@.len(),
                no_nul(bytes@.subrange(0, index as int)),
                forall|i: int| 0 <= i < index ==> chars@[i] == bytes@[i],
                forall|i: int| index <= i < N ==> chars@[i] == 0,
            ensures
                chars@.len() == N,
                index < N,
                index <= bytes@.len(),
                no_nul(bytes@.subrange(0, index as int)),
                forall|i: int| 0 <= i < index ==> chars@[i] == bytes@[i],
                forall|i: int| index <= i < N ==> chars@[i] == 0,
                index == bytes@.len() || index + 1 == N || bytes@[index as int] == 0,
            decreases bytes.len() - index,
        {
            if bytes[index] != 0 {
                chars.set(index, bytes[index]);
                index += 1;
                assert(no_nul(bytes@.subrange(0, index as int))) by {
                    assert forall|i: int| 0 <= i < index implies bytes@.subrange(0, index as int)[i] != 0 by {
                        if i < index - 1 {
                            assert(bytes@.subrange(0, index - 1)[i] != 0);
                        }
                    }
                }
            } else {
                break;
            }
        }
        proof {
            lemma_c_prefix_shape(bytes@);
            let t = c_prefix(bytes@);
            if index < bytes@.len() && bytes@[index as int] == 0 {
                lemma_c_prefix(bytes@, index as int);
            } else if index == bytes@.len() {
                lemma_c_prefix(bytes@, index as int);
            } else {
                // stopped by the capacity: the text runs at least this far
                assert(index + 1 == N);
                if t.len() < index {
                    assert(bytes@.subrange(0, index as int)[t.len() as int] == bytes@[t.len() as int]);
                }
                assert(t.subrange(0, index as int) =~= bytes@.subrange(0, index as int));
            }
        }
        assert forall|i: int| 0 <= i < index implies chars@[i] != 0 by {
            assert(bytes@.subrange(0, index as int)[i] == bytes@[i]);
        }
        let r = StringArray { chars, len: index };
        assert(r.view() =~= fitted(bytes@, N as nat));
        r
    }

    /// Builds a string array from a byte string: its text is what comes
    /// before the first NUL, cut to `N - 1` bytes.
    pub fn from_bytes(bytes: &[u8]) -> (r: Self)
        requires
            N >= 1,
        ensures
            r.view() == fitted(bytes@, N as nat),
    {
        Self::from_text_of(bytes)
    }

    /// Builds a string array from an array of `N` bytes that holds a NUL.
    pub fn new(array: [u8; N]) -> (r: Self)
        requires
            exists|i: int| 0 <= i < N && array@[i] == 0,
        ensures
            r.view() == c_prefix(array@),
    {
        let ghost k = choose|i: int| 0 <= i < N && array@[i] == 0;
        proof {
            lemma_c_prefix_shape(array@);
            let t = c_prefix(array@);
            if t.len() > k {
                assert(t[k] == array@[k]);
            }
        }
        Self::from_text_of(array.as_slice())
    }

    /// The length of the text, without its terminator.
    pub fn text_len(&self) -> (r: usize)
        ensures
            r == self.view().len(),
            r < N,
    {
        proof {
            use_type_invariant(self);
        }
        self.len
    }

    /// All `N` stored bytes: the text, then zeros.
    pub fn as_bytes(&self) -> (r: &[u8])
        ensures
            r@ == self.stored(),
    {
        proof {
            use_type_invariant(self);
            self.lemma_stored();
        }
        self.chars.as_slice()
    }

    /// The text followed by one NUL.
    pub fn as_cstr(&self) -> (r: Vec<u8>)
        ensures
            r@ == self.view().push(0u8),
    {
        proof {
            use_type_invariant(self);
        }
        let mut out: Vec<u8> = Vec::new();
        let mut i: usize = 0;
        while i < self.len
            invariant
                self.len < N,
                self.chars@.len() == N,
                i <= self.len,
                out@ == self.chars@.subrange(0, i as int),
            decreases self.len - i,
        {
            out.push(self.chars[i]);
            i += 1;
            assert(out@ =~= self.chars@.subrange(0, i as int));
        }
        out.push(0u8);
        out
    }

    /// The text, decoded as UTF-8 with invalid sequences replaced.
    pub fn to_string_lossy(&self) -> (r: String)
        ensures
            r@ == utf8_lossy(self.view()),
            self.view().len() == 0 ==> r@.len() == 0,
    {
        proof {
            use_type_invariant(self);
        }
        let text = vstd::slice::slice_subrange(self.chars.as_slice(), 0, self.len);
        decode_lossy(text)
    }

    /// Compares the texts of two string arrays.
    pub fn same_text(&self, other: &Self) -> (r: bool)
        ensures
            r == (self.view() == other.view()),
    {
        proof {
            use_type_invariant(self);
            use_type_invariant(other);
            self.lemma_stored();
            other.lemma_stored();
        }
        let eq = self.len == other.len && slices_equal(self.chars.as_slice(), other.chars.as_slice());
        proof {
            if self.len == other.len && !eq {
                assert(self.chars@ != other.chars@);
            }
            if self.view() == other.view() {
                assert(self.chars@ =~= other.chars@);
            }
        }
        eq
    }
}

/// Whether two byte slices hold the same bytes.
pub fn slices_equal(a: &[u8], b: &[u8]) -> (r: bool)
    ensures
        r == (a@ == b@),
{
    if a.len() != b.len() {
        return false;
    }
    let mut i: usize = 0;
    while i < a.len()
        invariant
            a@.len() == b@.len(),
            i <= a@.len(),
            forall|j: int| 0 <= j < i ==> a@[j] == b@[j],
        decreases a.len() - i,
    {
        if a[i] != b[i] {
            return false;
        }
        i += 1;
    }
    assert(a@ =~= b@);
    true
}

impl<const N: usize> PartialEq for StringArray<N> {
    fn eq(&self, other: &Self) -> (r: bool)
        ensures
            r == (self.view() == other.view()),
    {
        self.same_text(other)
    }
}

impl<const N: usize> vstd::std_specs::cmp::PartialEqSpecImpl for StringArray<N> {
    open spec fn obeys_eq_spec() -> bool {
        true
    }

    open spec fn eq_spec(&self, other: &Self) -> bool {
        self.view() == other.view()
    }
}

impl<const N: usize> Eq for StringArray<N> {
}

impl<const N: usize> Clone for StringArray<N> {
    fn clone(&self) -> (r: Self)
        ensures
            r.view() == self.view(),
    {
        proof {
            use_type_invariant(self);
        }
        StringArray { chars: self.chars.clone(), len: self.len }
    }
}

impl<const N: usize> Clone for ByteArray<N> {
    fn clone(&self) -> (r: Self)
        ensures
            r.view() == self.view(),
    {
        proof {
            use_type_invariant(self);
        }
        ByteArray { bytes: self.bytes.clone() }
    }
}

} // verus!
