use crate::error::GossipError;
use vstd::prelude::*;
use crate::nostr::{canonical_relay_url, parse_relay_url};
use vstd::utf8::encode_utf8;

verus! {

/// A relay address in canonical form: scheme, host and path.
#[derive(Debug, Eq, Hash, PartialOrd, Ord)]
pub struct RelayUrl {
    text: String,
}

impl View for RelayUrl {
    type V = Seq<char>;

    closed spec fn view(&self) -> Seq<char> {
        self.text@
    }
}

impl PartialEq for RelayUrl {
    fn eq(&self, other: &RelayUrl) -> (r: bool) {
        self.text == other.text
    }
}

impl vstd::std_specs::cmp::PartialEqSpecImpl for RelayUrl {
    open spec fn obeys_eq_spec() -> bool {
        true
    }

    open spec fn eq_spec(&self, other: &RelayUrl) -> bool {
        self@ == other@
    }
}

impl Clone for RelayUrl {
    fn clone(&self) -> (r: Self)
        ensures
            r == *self,
    {
        RelayUrl { text: self.text.clone() }
    }
}

/// Byte-wise lexicographic order of `a` and `b`, looking from index `i` on.
pub open spec fn bytes_lt_from(a: Seq<u8>, b: Seq<u8>, i: int) -> bool
    decreases a.len() - i,
{
    if i < 0 || i >= a.len() {
        0 <= i < b.len()
    } else if i >= b.len() {
        false
    } else if a[i] != b[i] {
        a[i] < b[i]
    } else {
        bytes_lt_from(a, b, i + 1)
    }
}

/// Lexicographic order of byte strings, as `str` orders its text.
pub open spec fn bytes_lt(a: Seq<u8>, b: Seq<u8>) -> bool {
    bytes_lt_from(a, b, 0)
}

/// The order of relay addresses: byte-wise over their UTF-8 text.
pub open spec fn url_lt(a: Seq<char>, b: Seq<char>) -> bool {
    bytes_lt(encode_utf8(a), encode_utf8(b))
}

proof fn lemma_bytes_lt_from_transitive(a: Seq<u8>, b: Seq<u8>, c: Seq<u8>, i: int)
    requires
        0 <= i,
        bytes_lt_from(a, b, i),
        bytes_lt_from(b, c, i),
    ensures
        bytes_lt_from(a, c, i),
    decreases a.len() - i,
{
    if i < a.len() && i < b.len() && i < c.len() && a[i] == b[i] && b[i] == c[i] {
        lemma_bytes_lt_from_transitive(a, b, c, i + 1);
    }
}

proof fn lemma_bytes_lt_from_total(a: Seq<u8>, b: Seq<u8>, i: int)
    requires
        0 <= i <= a.len(),
        i <= b.len(),
        !bytes_lt_from(a, b, i),
        !bytes_lt_from(b, a, i),
    ensures
        a.subrange(i, a.len() as int) == b.subrange(i, b.len() as int),
    decreases a.len() - i,
{
    if i < a.len() {
        lemma_bytes_lt_from_total(a, b, i + 1);
        assert(a.subrange(i, a.len() as int) =~= seq![a[i]] + a.subrange(i + 1, a.len() as int));
        assert(b.subrange(i, b.len() as int) =~= seq![b[i]] + b.subrange(i + 1, b.len() as int));
    } else {
        assert(a.subrange(i, a.len() as int) =~= b.subrange(i, b.len() as int));
    }
}

/// The order of addresses is transitive.
pub proof fn lemma_url_lt_transitive(a: Seq<char>, b: Seq<char>, c: Seq<char>)
    requires
        url_lt(a, b),
        url_lt(b, c),
    ensures
        url_lt(a, c),
{
    lemma_bytes_lt_from_transitive(encode_utf8(a), encode_utf8(b), encode_utf8(c), 0);
}

/// Of two distinct addresses, one sorts before the other.
pub proof fn lemma_url_lt_total(a: Seq<char>, b: Seq<char>)
    requires
        a != b,
    ensures
        url_lt(a, b) || url_lt(b, a),
{
    let x = encode_utf8(a);
    let y = encode_utf8(b);
    if !url_lt(a, b) && !url_lt(b, a) {
        lemma_bytes_lt_from_total(x, y, 0);
        assert(x =~= x.subrange(0, x.len() as int));
        assert(y =~= y.subrange(0, y.len() as int));
        vstd::utf8::encode_utf8_decode_utf8(a);
        vstd::utf8::encode_utf8_decode_utf8(b);
    }
}

impl RelayUrl {
    /// Parses and normalises a relay address; a text that is not a websocket
    /// URL with an internet host is refused as invalid input.
    pub fn try_from_str(s: &str) -> (r: Result<RelayUrl, GossipError>)
        ensures
            match canonical_relay_url(s@) {
                Some(c) => r is Ok && r->Ok_0@ == c,
                None => r == Err::<RelayUrl, GossipError>(GossipError::InvalidInput),
            },
    {
        match parse_relay_url(s) {
            Ok(text) => Ok(RelayUrl { text }),
            Err(_) => Err(GossipError::InvalidInput),
        }
    }

    /// The canonical text.
    pub fn as_str(&self) -> (r: &str)
        ensures
            r@ == self@,
    {
        self.text.as_str()
    }

    /// Whether `self` sorts before `other`.
    pub fn less_than(&self, other: &RelayUrl) -> (r: bool)
        ensures
            r == url_lt(self@, other@),
    {
        let a = self.text.as_str().as_bytes();
        let b = other.text.as_str().as_bytes();
        let mut i: usize = 0;
        while i < a.len() && i < b.len() && a[i] == b[i]
            invariant
                a@ == encode_utf8(self@),
                b@ == encode_utf8(other@),
                0 <= i <= a@.len(),
                i <= b@.len(),
                bytes_lt(a@, b@) == bytes_lt_from(a@, b@, i as int),
            decreases a.len() - i,
        {
            i = i + 1;
        }
        if i >= a.len() {
            i < b.len()
        } else if i >= b.len() {
            false
        } else {
            a[i] < b[i]
        }
    }
}

} // verus!
