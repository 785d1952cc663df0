//! Key validation and random key generation. A key is 3 to 12 characters
//! from `[a-zA-Z0-9_-]`; nothing else ever reaches the network.
use vstd::prelude::*;

use crate::error::Error;
use crate::json::push_char;
use vstd::string::StrSliceExecFns;

verus! {

pub open spec fn is_key_char(c: char) -> bool {
    ('a' <= c && c <= 'z') || ('A' <= c && c <= 'Z') || ('0' <= c && c <= '9') || c == '_' || c
        == '-'
}

pub open spec fn is_valid_key(s: Seq<char>) -> bool {
    3 <= s.len() && s.len() <= 12 && (forall|i: int| 0 <= i < s.len() ==> is_key_char(s[i]))
}

/// Whether `s` may serve as a record key.
pub fn valid_key(s: &str) -> (r: bool)
    ensures
        r == is_valid_key(s@),
{
    let n: usize = s.unicode_len();
    if n < 3 || n > 12 {
        return false;
    }
    let mut i: usize = 0;
    while i < n
        invariant
            n == s@.len(),
            3 <= n <= 12,
            i <= n,
            forall|q: int| 0 <= q < i ==> is_key_char(s@[q]),
        decreases n - i,
    {
        let c = s.get_char(i);
        let okc = (c >= 'a' && c <= 'z') || (c >= 'A' && c <= 'Z') || (c >= '0' && c <= '9') || c
            == '_' || c == '-';
        if !okc {
            return false;
        }
        i = i + 1;
    }
    true
}

/// A key that passed validation.
#[derive(Clone, Debug, PartialEq, Eq)]
pub struct Key {
    key: String,
}

impl View for Key {
    type V = Seq<char>;

    closed spec fn view(&self) -> Seq<char> {
        self.key@
    }
}

impl Key {
    /// Accept exactly the well-formed keys; anything else is `BadKey`.
    pub fn parse(s: &str) -> (r: Result<Key, Error>)
        ensures
            is_valid_key(s@) ==> (r matches Ok(k) && k@ == s@),
            !is_valid_key(s@) ==> r == Result::<Key, Error>::Err(Error::BadKey),
    {
        if valid_key(s) {
            Ok(Key { key: s.to_owned() })
        } else {
            Err(Error::BadKey)
        }
    }

    pub fn into_string(self) -> (r: String)
        ensures
            r@ == self@,
    {
        self.key
    }
}

/// Relies on `rand::random_range`: a value uniformly drawn from the given
/// range; it panics only on an empty range, which the precondition rules
/// out.
#[verifier::external_body]
fn random_below(n: u32) -> (r: u32)
    requires
        n > 0,
    ensures
        r < n,
{
    rand::random_range(0..n)
}

pub open spec fn is_alnum(c: char) -> bool {
    ('a' <= c && c <= 'z') || ('A' <= c && c <= 'Z') || ('0' <= c && c <= '9')
}

/// Draw a short random key: four ASCII alphanumeric characters, which is
/// always a well-formed key.
pub fn gen_key() -> (r: String)
    ensures
        r@.len() == 4,
        forall|q: int| 0 <= q < r@.len() ==> is_alnum(r@[q]),
        is_valid_key(r@),
{
    let table = "abcdefghijklmnopqrstuvwxyzABCDEFGHIJKLMNOPQRSTUVWXYZ0123456789";
    proof {
        reveal_strlit("abcdefghijklmnopqrstuvwxyzABCDEFGHIJKLMNOPQRSTUVWXYZ0123456789");
    }
    let mut out = String::new();
    let mut i: usize = 0;
    while i < 4
        invariant
            table@.len() == 62,
            forall|q: int| 0 <= q < 62 ==> is_alnum(table@[q]),
            i <= 4,
            out@.len() == i,
            forall|q: int| 0 <= q < i ==> is_alnum(out@[q]),
        decreases 4 - i,
    {
        let idx = random_below(62);
        let c = table.get_char(idx as usize);
        push_char(&mut out, c);
        i = i + 1;
    }
    out
}

} // verus!
