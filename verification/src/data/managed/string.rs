//! Julia strings.
//!
//! A Julia string is a sequence of bytes. It is usually, but not necessarily, UTF-8 encoded,
//! and it may contain null bytes.
use vstd::prelude::*;
use vstd::string::StringSliceAdditionalSpecFns;
use vstd::utf8::valid_utf8;

verus! {

/// `std::str::from_utf8`: converts bytes to a string slice. Its documentation states that it
/// returns an error exactly when the bytes are not valid UTF-8; the string slice that is
/// returned otherwise consists of the same bytes. An error is handed on as its
/// `Utf8Error::valid_up_to`, which the documentation defines as the maximum index such that
/// the bytes before it are valid UTF-8.
#[verifier::external_body]
fn str_from_utf8(bytes: &[u8]) -> (r: Result<&str, usize>)
    ensures
        r is Ok <==> valid_utf8(bytes@),
        r matches Ok(s) ==> s.spec_bytes() == bytes@,
        r matches Err(n) ==> is_valid_up_to(bytes@, n as int),
{
    core::str::from_utf8(bytes).map_err(|e| e.valid_up_to())
}

/// `n` is the largest index such that the bytes before it are valid UTF-8.
pub open spec fn is_valid_up_to(bytes: Seq<u8>, n: int) -> bool {
    &&& 0 <= n <= bytes.len()
    &&& valid_utf8(bytes.take(n))
    &&& forall|m: int| n < m <= bytes.len() ==> !valid_utf8(#[trigger] bytes.take(m))
}

/// Why the contents of a Julia string can't be used as a `str`.
#[derive(Clone, Copy, Debug, PartialEq, Eq, Structural)]
pub enum StringError {
    /// The bytes of the string aren't valid UTF-8: the bytes before `valid_up_to` are, and no
    /// longer prefix of them is.
    InvalidUtf8 { valid_up_to: usize },
}

/// The position of the first null byte in `bytes`, or its length if it has none.
pub open spec fn first_null(bytes: Seq<u8>) -> int
    decreases bytes.len(),
{
    if bytes.len() == 0 {
        0
    } else if bytes[0] == 0 {
        0
    } else {
        1 + first_null(bytes.drop_first())
    }
}

/// The bytes of a string up to, and not including, its first null byte.
pub open spec fn c_str_bytes(bytes: Seq<u8>) -> Seq<u8> {
    bytes.take(first_null(bytes))
}

/// The bytes before the first null byte hold no null byte, and they are all of the string or
/// are followed by a null byte: they are the longest prefix of the string without a null byte.
pub proof fn lemma_first_null(bytes: Seq<u8>)
    ensures
        c_str_bytes(bytes).len() <= bytes.len(),
        c_str_bytes(bytes) == bytes.take(c_str_bytes(bytes).len() as int),
        forall|i: int| 0 <= i < c_str_bytes(bytes).len() ==> #[trigger] c_str_bytes(bytes)[i] != 0,
        c_str_bytes(bytes).len() < bytes.len() ==> bytes[c_str_bytes(bytes).len() as int] == 0,
        0 <= first_null(bytes) <= bytes.len(),
        first_null(bytes) < bytes.len() ==> bytes[first_null(bytes)] == 0,
        forall|i: int| 0 <= i < first_null(bytes) ==> bytes[i] != 0,
    decreases bytes.len(),
{
    if bytes.len() > 0 && bytes[0] != 0 {
        lemma_first_null(bytes.drop_first());
        assert forall|i: int| 0 <= i < first_null(bytes) implies bytes[i] != 0 by {
            if i > 0 {
                assert(bytes[i] == bytes.drop_first()[i - 1]);
            }
        }
    }
}

/// A Julia string.
pub struct JuliaString {
    bytes: Vec<u8>,
}

impl View for JuliaString {
    type V = Seq<u8>;

    closed spec fn view(&self) -> Seq<u8> {
        self.bytes@
    }
}

impl JuliaString {
    /// Create a new Julia string with the contents of `string`.
    pub fn new(string: &str) -> (r: Self)
        ensures
            r@ == string.spec_bytes(),
    {
        let bytes = string.as_bytes();
        JuliaString { bytes: vstd::slice::slice_to_vec(bytes) }
    }

    /// Create a new Julia string with the contents of `bytes`.
    pub fn new_bytes(bytes: &[u8]) -> (r: Self)
        ensures
            r@ == bytes@,
    {
        JuliaString { bytes: vstd::slice::slice_to_vec(bytes) }
    }

    /// Returns the length of the string, in bytes.
    pub fn len(&self) -> (r: usize)
        ensures
            r == self@.len(),
    {
        self.bytes.len()
    }

    /// Returns the bytes of the string as a C string sees them: the bytes before the first
    /// null byte.
    pub fn as_c_str(&self) -> (r: &[u8])
        ensures
            r@ == c_str_bytes(self@),
    {
        proof {
            lemma_first_null(self@);
        }
        let n = self.bytes.len();
        let mut i: usize = 0;
        while i < n && self.bytes[i] != 0
            invariant
                0 <= i <= n,
                n == self@.len(),
                forall|j: int| 0 <= j < i ==> self@[j] != 0,
                i <= first_null(self@) <= n,
                first_null(self@) < n ==> self@[first_null(self@)] == 0,
            decreases n - i,
        {
            i = i + 1;
        }
        assert(i == first_null(self@));
        let s = self.bytes.as_slice();
        &s[0..i]
    }

    /// Returns the string as a slice of bytes, including all null characters.
    pub fn as_bytes(&self) -> (r: &[u8])
        ensures
            r@ == self@,
    {
        self.bytes.as_slice()
    }

    /// Returns the string as a string slice, including all null characters, or an error if
    /// the string contains invalid characters, i.e. if its bytes aren't valid UTF-8.
    pub fn as_str(&self) -> (r: Result<&str, StringError>)
        ensures
            r is Ok <==> valid_utf8(self@),
            r matches Ok(s) ==> s.spec_bytes() == self@,
            r matches Err(StringError::InvalidUtf8 { valid_up_to }) ==> is_valid_up_to(
                self@,
                valid_up_to as int,
            ),
    {
        match str_from_utf8(self.bytes.as_slice()) {
            Ok(s) => Ok(s),
            Err(n) => Err(StringError::InvalidUtf8 { valid_up_to: n }),
        }
    }

    /// Converts the string to a Rust `String` if its bytes are valid UTF-8, and returns all of
    /// its bytes otherwise. Null bytes are kept either way.
    pub fn unbox_string(&self) -> (r: Result<String, Vec<u8>>)
        ensures
            r is Ok <==> valid_utf8(self@),
            r matches Ok(s) ==> vstd::utf8::encode_utf8(s@) == self@,
            r matches Err(b) ==> b@ == self@,
    {
        match self.as_str() {
            Ok(s) => Ok(s.to_owned()),
            Err(_) => Err(vstd::slice::slice_to_vec(self.as_bytes())),
        }
    }
}

} // verus!
