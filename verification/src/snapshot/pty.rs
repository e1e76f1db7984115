//! The pure parts of driving an example under a pseudo-console: the
//! errors a session can hit, and spotting the terminal's cursor-position
//! query in its output stream.
use vstd::prelude::*;
use crate::snapshot::render::RenderError;

verus! {

/// Declares `std::io::Error` so errors can carry it.
#[verifier::external_type_specification]
#[verifier::external_body]
pub struct ExIoError(std::io::Error);

/// Errors from spawning or driving a PTY-attached child process.
#[derive(Debug)]
pub enum PtyError {
    /// An I/O failure (writing to the child, running `cargo build`, ...).
    Io(std::io::Error),
    /// A pseudo-console failure (opening the pty, spawning the child),
    /// as text.
    Pty(String),
    /// A failure while rasterizing the captured screen.
    Render(RenderError),
}

/// The Device Status Report cursor-position query, `ESC [ 6 n`.
pub open spec fn dsr_query() -> Seq<u8> {
    seq![0x1bu8, 0x5b, 0x36, 0x6e]
}

/// `bytes` holds the query at position `i`.
pub open spec fn dsr_at(bytes: Seq<u8>, i: int) -> bool {
    0 <= i && i + 4 <= bytes.len() && bytes.subrange(i, i + 4) == dsr_query()
}

/// `bytes` holds the query somewhere.
pub open spec fn holds_dsr(bytes: Seq<u8>) -> bool {
    exists|i: int| dsr_at(bytes, i)
}

/// The last (up to) three bytes of `bytes`: one short of the query, so
/// a query split across reads can be reassembled.
pub open spec fn carry_of(bytes: Seq<u8>) -> Seq<u8> {
    if bytes.len() <= 3 {
        bytes
    } else {
        bytes.subrange(bytes.len() - 3, bytes.len() as int)
    }
}

/// Scans `chunk` (one read's worth of bytes), preceded by the bytes
/// `carry` kept from the previous call, for the query `ESC[6n`; keeps the
/// last three bytes of the two in `carry` for the next call. Callers
/// reuse the same `carry` for every call on a stream.
pub fn dsr_query_seen(carry: &mut Vec<u8>, chunk: &[u8]) -> (found: bool)
    ensures
        found == holds_dsr(old(carry)@ + chunk@),
        final(carry)@ == carry_of(old(carry)@ + chunk@),
{
    let ghost all = old(carry)@ + chunk@;
    let mut i: usize = 0;
    while i < chunk.len()
        invariant
            0 <= i <= chunk@.len(),
            carry@ == old(carry)@ + chunk@.take(i as int),
        decreases chunk.len() - i,
    {
        carry.push(chunk[i]);
        i = i + 1;
        assert(chunk@.take(i as int) =~= chunk@.take(i - 1).push(chunk@[i - 1]));
    }
    assert(chunk@.take(i as int) =~= chunk@);
    assert(carry@ == all);
    let n = carry.len();
    let mut found = false;
    let mut j: usize = 0;
    while j <= n && n - j >= 4
        invariant
            carry@ == all,
            n == all.len(),
            0 <= j,
            j + 4 <= n + 4,
            j <= n || n < 4,
            found == exists|k: int| 0 <= k < j && dsr_at(all, k),
        decreases n + 4 - j,
    {
        if carry[j] == 0x1b && carry[j + 1] == 0x5b && carry[j + 2] == 0x36 && carry[j + 3] == 0x6e {
            assert(all.subrange(j as int, j + 4) =~= dsr_query());
            assert(dsr_at(all, j as int));
            found = true;
        } else {
            proof {
                if dsr_at(all, j as int) {
                    assert(all.subrange(j as int, j + 4)[0] == all[j as int]);
                    assert(all.subrange(j as int, j + 4)[1] == all[j + 1]);
                    assert(all.subrange(j as int, j + 4)[2] == all[j + 2]);
                    assert(all.subrange(j as int, j + 4)[3] == all[j + 3]);
                }
            }
        }
        j = j + 1;
    }
    assert(found == holds_dsr(all));
    let keep = if n < 3 {
        n
    } else {
        3
    };
    let mut kept: Vec<u8> = Vec::new();
    let mut k: usize = n - keep;
    while k < n
        invariant
            carry@ == all,
            n == all.len(),
            keep <= n,
            n - keep <= k <= n,
            kept@ == all.subrange(n - keep, k as int),
        decreases n - k,
    {
        kept.push(carry[k]);
        k = k + 1;
        assert(all.subrange(n - keep, k as int) =~= all.subrange(n - keep, k - 1).push(all[k - 1]));
    }
    assert(kept@ =~= carry_of(all));
    *carry = kept;
    found
}

/// Law: feeding a stream in two reads through the same carry spots the
/// query exactly when it appears in the stream as a whole, however the
/// bytes were split between the reads.
pub proof fn lemma_dsr_split_reads(carry: Seq<u8>, a: Seq<u8>, b: Seq<u8>)
    ensures
        holds_dsr(carry + a) || holds_dsr(carry_of(carry + a) + b) <==> holds_dsr(carry + a + b),
{
    let first = carry + a;
    let second = carry_of(first) + b;
    let whole = first + b;
    let drop = first.len() - carry_of(first).len();
    assert(second =~= whole.subrange(drop, whole.len() as int));
    if holds_dsr(first) {
        let i = choose|i: int| dsr_at(first, i);
        assert(whole.subrange(i, i + 4) =~= first.subrange(i, i + 4));
        assert(dsr_at(whole, i));
    }
    if holds_dsr(second) {
        let i = choose|i: int| dsr_at(second, i);
        assert(whole.subrange(i + drop, i + drop + 4) =~= second.subrange(i, i + 4));
        assert(dsr_at(whole, i + drop));
    }
    if holds_dsr(whole) {
        let i = choose|i: int| dsr_at(whole, i);
        if i + 4 <= first.len() {
            assert(first.subrange(i, i + 4) =~= whole.subrange(i, i + 4));
            assert(dsr_at(first, i));
        } else {
            assert(i >= drop);
            assert(second.subrange(i - drop, i - drop + 4) =~= whole.subrange(i, i + 4));
            assert(dsr_at(second, i - drop));
        }
    }
}

/// The stream read so far: the first `j` read chunks, in order.
pub open spec fn stream_prefix(chunks: Seq<Seq<u8>>, j: int) -> Seq<u8>
    decreases j,
{
    if j <= 0 {
        Seq::empty()
    } else {
        stream_prefix(chunks, j - 1) + chunks[j - 1]
    }
}

/// The carry after `dsr_query_seen` has been fed the first `j` chunks,
/// starting from an empty carry.
pub open spec fn carry_after(chunks: Seq<Seq<u8>>, j: int) -> Seq<u8>
    decreases j,
{
    if j <= 0 {
        Seq::empty()
    } else {
        carry_of(carry_after(chunks, j - 1) + chunks[j - 1])
    }
}

/// What the call on chunk `j` returns when every chunk of the stream is
/// fed, in order, through one carry that starts empty.
pub open spec fn call_sees(chunks: Seq<Seq<u8>>, j: int) -> bool {
    holds_dsr(carry_after(chunks, j) + chunks[j])
}

proof fn lemma_carry_of_suffix(x: Seq<u8>, c: Seq<u8>)
    ensures
        carry_of(carry_of(x) + c) == carry_of(x + c),
{
    let s = carry_of(x) + c;
    let y = x + c;
    let d = x.len() - carry_of(x).len();
    assert(s =~= y.subrange(d, y.len() as int));
    if s.len() > 3 {
        assert(carry_of(s) =~= carry_of(y));
    } else if x.len() <= 3 {
        assert(s =~= y);
    } else {
        assert(y =~= x);
        assert(s =~= carry_of(x));
    }
}

proof fn lemma_carry_after(chunks: Seq<Seq<u8>>, j: int)
    requires
        0 <= j <= chunks.len(),
    ensures
        carry_after(chunks, j) == carry_of(stream_prefix(chunks, j)),
    decreases j,
{
    if j > 0 {
        lemma_carry_after(chunks, j - 1);
        lemma_carry_of_suffix(stream_prefix(chunks, j - 1), chunks[j - 1]);
    } else {
        assert(carry_of(Seq::<u8>::empty()) =~= Seq::<u8>::empty());
    }
}

/// Law: when a stream is fed chunk by chunk through one carry that starts
/// empty, the call on chunk `j` returns true exactly when the stream read
/// so far holds the query ending inside chunk `j` — however the query is
/// split across the reads.
pub proof fn lemma_dsr_call_sees(chunks: Seq<Seq<u8>>, j: int)
    requires
        0 <= j < chunks.len(),
    ensures
        call_sees(chunks, j) <==> exists|i: int|
            #[trigger] dsr_at(stream_prefix(chunks, j + 1), i) && i + 4 > stream_prefix(chunks, j).len(),
{
    lemma_carry_after(chunks, j);
    let p = stream_prefix(chunks, j);
    let c = chunks[j];
    let whole = stream_prefix(chunks, j + 1);
    let tail = carry_of(p) + c;
    let d = p.len() - carry_of(p).len();
    assert(whole == p + c);
    assert(tail =~= whole.subrange(d, whole.len() as int));
    if call_sees(chunks, j) {
        let i = choose|i: int| dsr_at(tail, i);
        assert(whole.subrange(i + d, i + d + 4) =~= tail.subrange(i, i + 4));
        assert(dsr_at(whole, i + d) && i + d + 4 > p.len());
    }
    if exists|i: int| dsr_at(whole, i) && i + 4 > p.len() {
        let i = choose|i: int| dsr_at(whole, i) && i + 4 > p.len();
        assert(i >= d);
        assert(tail.subrange(i - d, i - d + 4) =~= whole.subrange(i, i + 4));
        assert(dsr_at(tail, i - d));
    }
}

/// Law: some call among the first `k` returns true exactly when the first
/// `k` chunks, taken as one stream, hold the query.
pub proof fn lemma_dsr_stream_seen(chunks: Seq<Seq<u8>>, k: int)
    requires
        0 <= k <= chunks.len(),
    ensures
        (exists|j: int| 0 <= j < k && call_sees(chunks, j)) <==> holds_dsr(stream_prefix(chunks, k)),
    decreases k,
{
    if k > 0 {
        lemma_dsr_stream_seen(chunks, k - 1);
        lemma_dsr_call_sees(chunks, k - 1);
        let p = stream_prefix(chunks, k - 1);
        let whole = stream_prefix(chunks, k);
        assert(whole == p + chunks[k - 1]);
        if holds_dsr(p) {
            let i = choose|i: int| dsr_at(p, i);
            assert(whole.subrange(i, i + 4) =~= p.subrange(i, i + 4));
            assert(dsr_at(whole, i));
        }
        if holds_dsr(whole) {
            let i = choose|i: int| dsr_at(whole, i);
            if i + 4 <= p.len() {
                assert(p.subrange(i, i + 4) =~= whole.subrange(i, i + 4));
                assert(dsr_at(p, i));
            } else {
                let j = k - 1;
                assert(stream_prefix(chunks, j + 1) == whole);
                assert(dsr_at(stream_prefix(chunks, j + 1), i) && i + 4 > stream_prefix(
                    chunks,
                    j,
                ).len());
                assert(call_sees(chunks, j));
            }
        }
        if call_sees(chunks, k - 1) {
            let j = k - 1;
            assert(stream_prefix(chunks, j + 1) == whole);
            let i = choose|i: int|
                #[trigger] dsr_at(stream_prefix(chunks, j + 1), i) && i + 4 > stream_prefix(
                    chunks,
                    j,
                ).len();
            assert(dsr_at(whole, i));
        }
        if exists|j: int| 0 <= j < k - 1 && call_sees(chunks, j) {
            let j = choose|j: int| 0 <= j < k - 1 && call_sees(chunks, j);
            assert(0 <= j < k && call_sees(chunks, j));
        }
        if exists|j: int| 0 <= j < k && call_sees(chunks, j) {
            let j = choose|j: int| 0 <= j < k && call_sees(chunks, j);
            if j < k - 1 {
                assert(exists|j2: int| 0 <= j2 < k - 1 && call_sees(chunks, j2));
            }
        }
    } else {
        assert(stream_prefix(chunks, 0) =~= Seq::<u8>::empty());
    }
}

} // verus!
