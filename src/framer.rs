//! The line framer: turns a response body that arrives in pieces of any size
//! into complete, trimmed lines, leaving out blank lines and the bare
//! hexadecimal chunk-size markers of chunked transfer encoding.
use vstd::prelude::*;

verus! {

/// The byte that ends a line.
pub const NEWLINE: u8 = 10;

/// Space, tab, line feed, vertical tab, form feed and carriage return.
pub open spec fn is_space(b: u8) -> bool {
    b == 32 || b == 9 || b == 10 || b == 11 || b == 12 || b == 13
}

/// An ASCII hexadecimal digit.
pub open spec fn is_hex_digit(b: u8) -> bool {
    (48 <= b <= 57) || (65 <= b <= 70) || (97 <= b <= 102)
}

/// Every byte of `s` is a hexadecimal digit.
pub open spec fn all_hex(s: Seq<u8>) -> bool {
    forall|i: int| 0 <= i < s.len() ==> is_hex_digit(s[i])
}

/// `s` without its leading white space.
pub open spec fn trim_start(s: Seq<u8>) -> Seq<u8>
    decreases s.len(),
{
    if s.len() > 0 && is_space(s[0]) {
        trim_start(s.drop_first())
    } else {
        s
    }
}

/// `s` without its trailing white space.
pub open spec fn trim_end(s: Seq<u8>) -> Seq<u8>
    decreases s.len(),
{
    if s.len() > 0 && is_space(s.last()) {
        trim_end(s.drop_last())
    } else {
        s
    }
}

/// `s` without white space at either end.
pub open spec fn trimmed(s: Seq<u8>) -> Seq<u8> {
    trim_end(trim_start(s))
}

/// Whether a trimmed line goes on to the decoder: it is neither empty nor a
/// chunk-size marker.
pub open spec fn forwarded_line(t: Seq<u8>) -> bool {
    t.len() > 0 && !all_hex(t)
}

/// Splits a byte sequence into its newline-terminated lines (without the
/// newlines) and the bytes after the last newline.
pub open spec fn split_lines(s: Seq<u8>) -> (Seq<Seq<u8>>, Seq<u8>)
    decreases s.len(),
{
    if s.len() == 0 {
        (Seq::empty(), Seq::empty())
    } else {
        let (lines, rest) = split_lines(s.drop_last());
        if s.last() == NEWLINE {
            (lines.push(rest), Seq::empty())
        } else {
            (lines, rest.push(s.last()))
        }
    }
}

/// The bytes after the last newline of `s`: the line still being received.
pub open spec fn remainder(s: Seq<u8>) -> Seq<u8> {
    split_lines(s).1
}

/// The trimmed lines that go on to the decoder, in order.
pub open spec fn forward(lines: Seq<Seq<u8>>) -> Seq<Seq<u8>>
    decreases lines.len(),
{
    if lines.len() == 0 {
        Seq::empty()
    } else {
        let before = forward(lines.drop_last());
        let t = trimmed(lines.last());
        if forwarded_line(t) {
            before.push(t)
        } else {
            before
        }
    }
}

/// The lines that the whole byte sequence `s` yields when fed at once.
pub open spec fn framed(s: Seq<u8>) -> Seq<Seq<u8>> {
    forward(split_lines(s).0)
}

/// The lines that one `feed` of `chunk` yields after the bytes `prev` were
/// fed: those completed by the chunk, starting from the pending line.
pub open spec fn feed_output(prev: Seq<u8>, chunk: Seq<u8>) -> Seq<Seq<u8>> {
    forward(split_lines(remainder(prev) + chunk).0)
}

/// All bytes of a list of chunks, in order.
pub open spec fn flatten(chunks: Seq<Seq<u8>>) -> Seq<u8>
    decreases chunks.len(),
{
    if chunks.len() == 0 {
        Seq::empty()
    } else {
        flatten(chunks.drop_last()) + chunks.last()
    }
}

/// The lines yielded by feeding the chunks one after another.
pub open spec fn feed_all(chunks: Seq<Seq<u8>>) -> Seq<Seq<u8>>
    decreases chunks.len(),
{
    if chunks.len() == 0 {
        Seq::empty()
    } else {
        feed_all(chunks.drop_last()) + feed_output(flatten(chunks.drop_last()), chunks.last())
    }
}

/// The views of a list of byte vectors.
pub open spec fn views(v: Seq<Vec<u8>>) -> Seq<Seq<u8>> {
    v.map_values(|l: Vec<u8>| l@)
}

proof fn lemma_split_append(a: Seq<u8>, b: Seq<u8>)
    ensures
        split_lines(a + b).0 == split_lines(a).0 + split_lines(remainder(a) + b).0,
        split_lines(a + b).1 == split_lines(remainder(a) + b).1,
    decreases b.len(),
{
    if b.len() == 0 {
        assert(a + b =~= a);
        assert(remainder(a) + b =~= remainder(a));
        lemma_remainder_has_no_lines(a);
        assert(split_lines(a).0 + Seq::<Seq<u8>>::empty() =~= split_lines(a).0);
    } else {
        let b0 = b.drop_last();
        lemma_split_append(a, b0);
        assert((a + b).drop_last() =~= a + b0);
        assert((remainder(a) + b).drop_last() =~= remainder(a) + b0);
        assert((a + b).last() == b.last());
        assert((remainder(a) + b).last() == b.last());
        let l0 = split_lines(a).0;
        let l1 = split_lines(remainder(a) + b0).0;
        let r1 = split_lines(remainder(a) + b0).1;
        assert((l0 + l1).push(r1) =~= l0 + l1.push(r1));
    }
}

proof fn lemma_no_newline_splits_to_itself(p: Seq<u8>)
    requires
        forall|i: int| 0 <= i < p.len() ==> p[i] != NEWLINE,
    ensures
        split_lines(p).0 == Seq::<Seq<u8>>::empty(),
        split_lines(p).1 == p,
    decreases p.len(),
{
    if p.len() > 0 {
        let q = p.drop_last();
        lemma_no_newline_splits_to_itself(q);
        assert(q.push(p.last()) =~= p);
    }
}

proof fn lemma_remainder_no_newline(s: Seq<u8>)
    ensures
        forall|i: int| 0 <= i < remainder(s).len() ==> remainder(s)[i] != NEWLINE,
    decreases s.len(),
{
    if s.len() > 0 {
        lemma_remainder_no_newline(s.drop_last());
        let rest = split_lines(s.drop_last()).1;
        if s.last() != NEWLINE {
            assert forall|i: int| 0 <= i < rest.len() + 1 implies rest.push(s.last())[i]
                != NEWLINE by {
                if i < rest.len() {
                    assert(rest.push(s.last())[i] == rest[i]);
                    assert(remainder(s.drop_last())[i] != NEWLINE);
                } else {
                    assert(rest.push(s.last())[i] == s.last());
                }
            }
        }
    }
}

proof fn lemma_remainder_has_no_lines(s: Seq<u8>)
    ensures
        split_lines(remainder(s)).0 == Seq::<Seq<u8>>::empty(),
        split_lines(remainder(s)).1 == remainder(s),
{
    lemma_remainder_no_newline(s);
    lemma_no_newline_splits_to_itself(remainder(s));
}

proof fn lemma_forward_append(x: Seq<Seq<u8>>, y: Seq<Seq<u8>>)
    ensures
        forward(x + y) == forward(x) + forward(y),
    decreases y.len(),
{
    if y.len() == 0 {
        assert(x + y =~= x);
        assert(forward(x) + Seq::<Seq<u8>>::empty() =~= forward(x));
    } else {
        let y0 = y.drop_last();
        lemma_forward_append(x, y0);
        assert((x + y).drop_last() =~= x + y0);
        assert((x + y).last() == y.last());
        let t = trimmed(y.last());
        assert((forward(x) + forward(y0)).push(t) =~= forward(x) + forward(y0).push(t));
    }
}

/// Feeding `chunk` after `prev` yields exactly the lines that feeding
/// `prev + chunk` at once adds to those of `prev`.
pub proof fn lemma_feed_extends(prev: Seq<u8>, chunk: Seq<u8>)
    ensures
        framed(prev + chunk) == framed(prev) + feed_output(prev, chunk),
        remainder(prev + chunk) == remainder(remainder(prev) + chunk),
{
    lemma_split_append(prev, chunk);
    lemma_forward_append(split_lines(prev).0, split_lines(remainder(prev) + chunk).0);
}

/// Chunk-boundary independence: feeding a byte stream to a fresh framer in
/// chunks of any sizes yields the same lines, in the same order, as feeding
/// it all at once.
pub proof fn lemma_chunking_is_invisible(chunks: Seq<Seq<u8>>)
    ensures
        feed_all(chunks) == framed(flatten(chunks)),
        feed_all(chunks) == feed_output(Seq::empty(), flatten(chunks)),
    decreases chunks.len(),
{
    if chunks.len() == 0 {
        reveal_with_fuel(split_lines, 1);
        reveal_with_fuel(forward, 1);
        assert(flatten(chunks) =~= Seq::<u8>::empty());
    } else {
        lemma_chunking_is_invisible(chunks.drop_last());
        lemma_feed_extends(flatten(chunks.drop_last()), chunks.last());
    }
    lemma_remainder_has_no_lines(Seq::<u8>::empty());
    assert(remainder(Seq::<u8>::empty()) =~= Seq::<u8>::empty());
    assert(remainder(Seq::<u8>::empty()) + flatten(chunks) =~= flatten(chunks));
}

/// No line that `feed` forwards is empty, starts or ends with white space,
/// or consists of hexadecimal digits only (a chunk-size marker such as
/// `1a3f`).
pub proof fn lemma_forwarded_lines_are_payload(prev: Seq<u8>, chunk: Seq<u8>)
    ensures
        forall|i: int|
            0 <= i < feed_output(prev, chunk).len() ==> {
                &&& feed_output(prev, chunk)[i].len() > 0
                &&& !all_hex(#[trigger] feed_output(prev, chunk)[i])
                &&& trimmed(feed_output(prev, chunk)[i]) == feed_output(prev, chunk)[i]
            },
{
    lemma_forward_payload(split_lines(remainder(prev) + chunk).0);
}

proof fn lemma_trim_start_shape(s: Seq<u8>)
    ensures
        trim_start(s).len() == 0 || !is_space(trim_start(s)[0]),
    decreases s.len(),
{
    if s.len() > 0 && is_space(s[0]) {
        lemma_trim_start_shape(s.drop_first());
    }
}

proof fn lemma_trim_end_shape(t: Seq<u8>)
    ensures
        trim_end(t).len() <= t.len(),
        trim_end(t) == t.subrange(0, trim_end(t).len() as int),
        trim_end(t).len() == 0 || !is_space(trim_end(t).last()),
    decreases t.len(),
{
    if t.len() > 0 && is_space(t.last()) {
        lemma_trim_end_shape(t.drop_last());
        assert(t.drop_last().subrange(0, trim_end(t).len() as int) =~= t.subrange(
            0,
            trim_end(t).len() as int,
        ));
    } else {
        assert(t.subrange(0, t.len() as int) =~= t);
    }
}

proof fn lemma_trimmed_is_stable(s: Seq<u8>)
    ensures
        trimmed(trimmed(s)) == trimmed(s),
{
    let v = trim_start(s);
    let u = trim_end(v);
    lemma_trim_start_shape(s);
    lemma_trim_end_shape(v);
    if u.len() > 0 {
        assert(u[0] == v[0]);
    }
    assert(trim_start(u) == u);
    assert(trim_end(u) == u);
}

proof fn lemma_forward_payload(lines: Seq<Seq<u8>>)
    ensures
        forall|i: int|
            0 <= i < forward(lines).len() ==> {
                &&& forward(lines)[i].len() > 0
                &&& !all_hex(#[trigger] forward(lines)[i])
                &&& trimmed(forward(lines)[i]) == forward(lines)[i]
            },
    decreases lines.len(),
{
    if lines.len() > 0 {
        let before = forward(lines.drop_last());
        let t = trimmed(lines.last());
        lemma_forward_payload(lines.drop_last());
        lemma_trimmed_is_stable(lines.last());
        if forwarded_line(t) {
            assert forall|i: int| 0 <= i < before.len() + 1 implies {
                &&& before.push(t)[i].len() > 0
                &&& !all_hex(#[trigger] before.push(t)[i])
                &&& trimmed(before.push(t)[i]) == before.push(t)[i]
            } by {
                if i < before.len() {
                    assert(before.push(t)[i] == before[i]);
                }
            }
        }
    }
}

fn space_byte(b: u8) -> (r: bool)
    ensures
        r == is_space(b),
{
    b == 32 || b == 9 || b == 10 || b == 11 || b == 12 || b == 13
}

fn hex_byte(b: u8) -> (r: bool)
    ensures
        r == is_hex_digit(b),
{
    (48 <= b && b <= 57) || (65 <= b && b <= 70) || (97 <= b && b <= 102)
}

/// Whether every byte of `t` is a hexadecimal digit.
pub fn all_hex_digits(t: &[u8]) -> (r: bool)
    ensures
        r == all_hex(t@),
{
    let mut i: usize = 0;
    while i < t.len()
        invariant
            i <= t@.len(),
            forall|k: int| 0 <= k < i ==> is_hex_digit(t@[k]),
        decreases t@.len() - i,
    {
        if !hex_byte(t[i]) {
            return false;
        }
        i = i + 1;
    }
    true
}

/// `line` without white space at either end.
pub fn trim_line(line: &[u8]) -> (r: Vec<u8>)
    ensures
        r@ == trimmed(line@),
{
    let ghost s = line@;
    let n = line.len();
    let mut lo: usize = 0;
    assert(s.subrange(0, n as int) =~= s);
    while lo < n && space_byte(line[lo])
        invariant
            lo <= n,
            n == s.len(),
            line@ == s,
            trim_start(s) == trim_start(s.subrange(lo as int, n as int)),
        decreases n - lo,
    {
        let ghost sub = s.subrange(lo as int, n as int);
        assert(sub.drop_first() =~= s.subrange(lo + 1, n as int));
        lo = lo + 1;
    }
    assert(trim_start(s) == s.subrange(lo as int, n as int));
    let mut hi: usize = n;
    while hi > lo && space_byte(line[hi - 1])
        invariant
            lo <= hi <= n,
            n == s.len(),
            line@ == s,
            trimmed(s) == trim_end(s.subrange(lo as int, hi as int)),
        decreases hi,
    {
        let ghost sub = s.subrange(lo as int, hi as int);
        assert(sub.drop_last() =~= s.subrange(lo as int, hi - 1));
        hi = hi - 1;
    }
    assert(trimmed(s) == s.subrange(lo as int, hi as int));
    let mut r: Vec<u8> = Vec::new();
    let mut k: usize = lo;
    while k < hi
        invariant
            lo <= k <= hi,
            hi <= n,
            n == s.len(),
            line@ == s,
            r@ == s.subrange(lo as int, k as int),
        decreases hi - k,
    {
        r.push(line[k]);
        assert(r@ =~= s.subrange(lo as int, k + 1));
        k = k + 1;
    }
    r
}

/// Incremental splitter of a response body into the lines that go on to the
/// decoder. Its view is every byte fed so far; it keeps only the line still
/// being received.
pub struct LineFramer {
    buffer: Vec<u8>,
    received: Ghost<Seq<u8>>,
}

impl View for LineFramer {
    type V = Seq<u8>;

    closed spec fn view(&self) -> Seq<u8> {
        self.received@
    }
}

impl LineFramer {
    /// The buffer holds exactly the unfinished last line of what was fed.
    pub closed spec fn wf(&self) -> bool {
        self.buffer@ == remainder(self.received@)
    }

    /// A framer that has been fed nothing.
    pub fn new() -> (r: Self)
        ensures
            r.wf(),
            r@ == Seq::<u8>::empty(),
    {
        LineFramer { buffer: Vec::new(), received: Ghost(Seq::empty()) }
    }

    /// The bytes after the last newline fed so far.
    pub fn pending(&self) -> (r: &[u8])
        requires
            self.wf(),
        ensures
            r@ == remainder(self@),
    {
        self.buffer.as_slice()
    }

    /// Takes the next piece of the body and returns, in order, the trimmed
    /// lines it completes that are neither empty nor all hexadecimal digits.
    pub fn feed(&mut self, bytes: &[u8]) -> (lines: Vec<Vec<u8>>)
        requires
            old(self).wf(),
        ensures
            final(self).wf(),
            final(self)@ == old(self)@ + bytes@,
            views(lines@) == feed_output(old(self)@, bytes@),
    {
        let ghost start = self.buffer@;
        let ghost prev = self.received@;
        proof {
            lemma_remainder_has_no_lines(prev);
            assert(start + bytes@.subrange(0, 0) =~= start);
            assert(views(Seq::<Vec<u8>>::empty()) =~= Seq::<Seq<u8>>::empty());
        }
        let mut out: Vec<Vec<u8>> = Vec::new();
        let mut i: usize = 0;
        while i < bytes.len()
            invariant
                i <= bytes@.len(),
                start == remainder(prev),
                self.received@ == prev,
                split_lines(start + bytes@.subrange(0, i as int)).1 == self.buffer@,
                views(out@) == forward(split_lines(start + bytes@.subrange(0, i as int)).0),
            decreases bytes@.len() - i,
        {
            let b = bytes[i];
            let ghost cur = start + bytes@.subrange(0, i as int);
            let ghost next = start + bytes@.subrange(0, i + 1);
            assert(next.drop_last() =~= cur);
            assert(next.last() == b);
            if b == NEWLINE {
                let mut line: Vec<u8> = Vec::new();
                core::mem::swap(&mut line, &mut self.buffer);
                let t = trim_line(line.as_slice());
                proof {
                    let ls = split_lines(cur).0;
                    assert(ls.push(line@).drop_last() =~= ls);
                    assert(ls.push(line@).last() == line@);
                }
                if t.len() > 0 && !all_hex_digits(t.as_slice()) {
                    let ghost before = out@;
                    out.push(t);
                    assert(views(out@) =~= views(before).push(trimmed(line@)));
                }
            } else {
                self.buffer.push(b);
            }
            i = i + 1;
        }
        proof {
            assert(bytes@.subrange(0, bytes@.len() as int) =~= bytes@);
            lemma_feed_extends(prev, bytes@);
        }
        self.received = Ghost(prev + bytes@);
        out
    }
}

} // verus!
