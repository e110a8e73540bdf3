//! The little of HTTP/1.1 that the raw-socket transport speaks: the request it
//! writes, and where the body of the reply begins.
use vstd::prelude::*;
use vstd::string::*;
use crate::error::OllamaError;
use crate::transport::{decimal, decimal_text};

verus! {

/// The request written on the raw socket: a `POST /api/chat` with `Host`,
/// `Content-Type` and `Content-Length` (in bytes) headers, then the body.
pub open spec fn raw_request(host: Seq<char>, body: &str) -> Seq<char> {
    "POST /api/chat HTTP/1.1\r\nHost: "@ + host + "\r\nContent-Type: application/json\r\nContent-Length: "@
        + decimal(body.len() as nat) + "\r\n\r\n"@ + body@
}

/// Builds the raw request for `host` with the serialized request `body`.
pub fn build_raw_request(host: &str, body: &str) -> (r: String)
    ensures
        r@ == raw_request(host@, body),
{
    let r = String::from_str("POST /api/chat HTTP/1.1\r\nHost: ");
    let r = r.concat(host);
    let r = r.concat("\r\nContent-Type: application/json\r\nContent-Length: ");
    let r = r.concat(decimal_text(body.len()).as_str());
    let r = r.concat("\r\n\r\n");
    r.concat(body)
}

/// The blank line that ends the header block, `\r\n\r\n`, starts at `i`.
pub open spec fn separator_at(s: Seq<u8>, i: int) -> bool {
    0 <= i && i + 4 <= s.len() && s[i] == 13 && s[i + 1] == 10 && s[i + 2] == 13 && s[i + 3] == 10
}

/// `s` holds the end of the header block somewhere.
pub open spec fn has_separator(s: Seq<u8>) -> bool {
    exists|i: int| separator_at(s, i)
}

/// The header block of `s` ends at `k`: the first separator starts there.
pub open spec fn first_separator(s: Seq<u8>, k: int) -> bool {
    separator_at(s, k) && forall|j: int| 0 <= j < k ==> !separator_at(s, j)
}

/// Gathers the start of a reply until the header block is over. Its view is
/// every byte pushed so far.
pub struct HeadReader {
    seen: Vec<u8>,
}

impl View for HeadReader {
    type V = Seq<u8>;

    closed spec fn view(&self) -> Seq<u8> {
        self.seen@
    }
}

fn append_bytes(out: &mut Vec<u8>, b: &[u8])
    ensures
        final(out)@ == old(out)@ + b@,
{
    let mut i: usize = 0;
    while i < b.len()
        invariant
            i <= b@.len(),
            out@ == old(out)@ + b@.subrange(0, i as int),
        decreases b@.len() - i,
    {
        out.push(b[i]);
        i = i + 1;
        assert(out@ =~= old(out)@ + b@.subrange(0, i as int));
    }
    assert(b@.subrange(0, b@.len() as int) =~= b@);
}

impl HeadReader {
    /// A reader that has seen nothing.
    pub fn new() -> (r: Self)
        ensures
            r@ == Seq::<u8>::empty(),
    {
        HeadReader { seen: Vec::new() }
    }

    /// Takes the next bytes of the reply. Once the header block is complete it
    /// returns what follows it: the first bytes of the body.
    pub fn push(&mut self, bytes: &[u8]) -> (r: Option<Vec<u8>>)
        requires
            !has_separator(old(self)@),
        ensures
            final(self)@ == old(self)@ + bytes@,
            r is None ==> !has_separator(final(self)@),
            r is Some ==> exists|k: int|
                first_separator(final(self)@, k) && r->0@ == final(self)@.subrange(
                    k + 4,
                    final(self)@.len() as int,
                ),
    {
        let old_len = self.seen.len();
        append_bytes(&mut self.seen, bytes);
        let n = self.seen.len();
        let mut i: usize = if old_len >= 3 { old_len - 3 } else { 0 };
        assert forall|j: int| 0 <= j < i implies !separator_at(self.seen@, j) by {
            if separator_at(self.seen@, j) {
                assert(separator_at(old(self)@, j));
            }
        }
        while n >= 4 && i <= n - 4
            invariant
                n == self.seen@.len(),
                self.seen@ == old(self)@ + bytes@,
                forall|j: int| 0 <= j < i ==> !separator_at(self.seen@, j),
            decreases n - i,
        {
            if self.seen[i] == 13 && self.seen[i + 1] == 10 && self.seen[i + 2] == 13
                && self.seen[i + 3] == 10 {
                let mut body: Vec<u8> = Vec::new();
                let mut k: usize = i + 4;
                while k < n
                    invariant
                        i + 4 <= k <= n,
                        n == self.seen@.len(),
                        self.seen@ == old(self)@ + bytes@,
                        forall|j: int| 0 <= j < i ==> !separator_at(self.seen@, j),
                        body@ == self.seen@.subrange(i + 4, k as int),
                    decreases n - k,
                {
                    body.push(self.seen[k]);
                    k = k + 1;
                    assert(body@ =~= self.seen@.subrange(i + 4, k as int));
                }
                assert(first_separator(self.seen@, i as int));
                assert(body@ == self.seen@.subrange(i + 4, n as int));
                assert(self@ == self.seen@);
                assert(first_separator(self@, i as int) && body@ == self@.subrange(
                    i + 4,
                    self@.len() as int,
                ));
                return Some(body);
            }
            i = i + 1;
        }
        assert forall|j: int| !separator_at(self.seen@, j) by {
            if 0 <= j && j >= i {
                assert(j + 4 > n);
            }
        }
        None
    }

    /// The connection closed before the header block was over.
    pub fn end_of_input(&self) -> (r: OllamaError)
        ensures
            r matches OllamaError::ProtocolFraming(_),
    {
        OllamaError::ProtocolFraming(String::from_str("connection closed before headers"))
    }
}

} // verus!
