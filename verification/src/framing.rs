use vstd::prelude::*;
use vstd::utf8::valid_utf8;

use crate::text::{
    copy_range, index_of, index_of_from, lemma_index_of_from_at, lemma_index_of_from_bounds,
    lemma_index_of_from_skip,
};

verus! {

/// Past this many bytes, a receive buffer that holds no line end is dropped.
pub const RX_BUFFER_LIMIT: usize = 4096;

/// `l` without the carriage returns at its end.
pub open spec fn strip_trailing_cr(l: Seq<u8>) -> Seq<u8>
    decreases l.len(),
{
    if l.len() > 0 && l.last() == 13u8 {
        strip_trailing_cr(l.drop_last())
    } else {
        l
    }
}

/// The lines that `s` completes: each piece before a `\n`, without its
/// trailing carriage returns, leaving out the pieces that are then empty.
pub open spec fn complete_lines(s: Seq<u8>) -> Seq<Seq<u8>>
    decreases s.len(),
{
    let j = index_of_from(s, 10u8, 0);
    if 0 <= j < s.len() {
        let line = strip_trailing_cr(s.take(j));
        (if line.len() == 0 {
            Seq::<Seq<u8>>::empty()
        } else {
            seq![line]
        }) + complete_lines(s.skip(j + 1))
    } else {
        Seq::<Seq<u8>>::empty()
    }
}

/// What follows the last `\n` of `s`: a line still being received.
pub open spec fn pending_tail(s: Seq<u8>) -> Seq<u8>
    decreases s.len(),
{
    let j = index_of_from(s, 10u8, 0);
    if 0 <= j < s.len() {
        pending_tail(s.skip(j + 1))
    } else {
        s
    }
}

/// What a receive buffer holds once its complete lines are taken out: the
/// pending tail, unless it has grown past the limit.
pub open spec fn kept_after_framing(s: Seq<u8>) -> Seq<u8> {
    if pending_tail(s).len() > RX_BUFFER_LIMIT {
        Seq::<u8>::empty()
    } else {
        pending_tail(s)
    }
}

/// `std::str::from_utf8`: this claims that it succeeds exactly on well-formed
/// UTF-8, as vstd's `valid_utf8` defines it.
#[verifier::external_body]
fn is_utf8(bytes: &[u8]) -> (b: bool)
    ensures
        b == valid_utf8(bytes@),
{
    std::str::from_utf8(bytes).is_ok()
}

/// Appends a chunk read from the serial port to the receive buffer when it
/// is well-formed UTF-8; a chunk that is not is dropped whole.
pub fn append_chunk(buffer: &mut Vec<u8>, chunk: &[u8]) -> (accepted: bool)
    ensures
        accepted == valid_utf8(chunk@),
        accepted ==> final(buffer)@ == old(buffer)@ + chunk@,
        !accepted ==> final(buffer)@ == old(buffer)@,
{
    if is_utf8(chunk) {
        let mut i: usize = 0;
        let ghost start = buffer@;
        while i < chunk.len()
            invariant
                i <= chunk.len(),
                buffer@ == start + chunk@.subrange(0, i as int),
            decreases chunk.len() - i,
        {
            buffer.push(chunk[i]);
            i = i + 1;
            assert(buffer@ =~= start + chunk@.subrange(0, i as int));
        }
        assert(chunk@.subrange(0, chunk@.len() as int) =~= chunk@);
        true
    } else {
        false
    }
}

/// The end of `s[from..to]` once its trailing carriage returns are cut off.
fn strip_cr_end(s: &[u8], from: usize, to: usize) -> (end: usize)
    requires
        from <= to <= s.len(),
    ensures
        from <= end <= to,
        s@.subrange(from as int, end as int) == strip_trailing_cr(s@.subrange(from as int, to as int)),
{
    let mut end = to;
    while end > from && s[end - 1] == 13u8
        invariant
            from <= end <= to <= s.len(),
            strip_trailing_cr(s@.subrange(from as int, to as int)) == strip_trailing_cr(
                s@.subrange(from as int, end as int),
            ),
        decreases end,
    {
        assert(s@.subrange(from as int, end as int).drop_last() =~= s@.subrange(
            from as int,
            end - 1,
        ));
        end = end - 1;
    }
    end
}

/// Takes the complete lines out of the receive buffer, in order, each without
/// its line end and trailing carriage returns, leaving out empty ones. The
/// buffer keeps the line still being received, or is emptied when that has
/// grown past the limit.
pub fn process_rx_buffer(buffer: &mut Vec<u8>) -> (lines: Vec<Vec<u8>>)
    ensures
        lines@.len() == complete_lines(old(buffer)@).len(),
        forall|i: int| 0 <= i < lines@.len() ==> #[trigger] lines@[i]@ == complete_lines(old(buffer)@)[i],
        final(buffer)@ == kept_after_framing(old(buffer)@),
{
    let ghost s = buffer@;
    let mut lines: Vec<Vec<u8>> = Vec::new();
    let ghost mut done: Seq<Seq<u8>> = Seq::empty();
    let mut pos: usize = 0;
    assert(s.skip(0) =~= s);
    loop
        invariant
            buffer@ == s,
            pos <= s.len(),
            lines@.len() == done.len(),
            forall|i: int| 0 <= i < lines@.len() ==> #[trigger] lines@[i]@ == done[i],
            done + complete_lines(s.skip(pos as int)) == complete_lines(s),
            pending_tail(s.skip(pos as int)) == pending_tail(s),
        ensures
            pos <= s.len(),
            lines@.len() == done.len(),
            forall|i: int| 0 <= i < lines@.len() ==> #[trigger] lines@[i]@ == done[i],
            done + complete_lines(s.skip(pos as int)) == complete_lines(s),
            pending_tail(s.skip(pos as int)) == pending_tail(s),
            complete_lines(s.skip(pos as int)) =~= Seq::<Seq<u8>>::empty(),
            pending_tail(s.skip(pos as int)) == s.skip(pos as int),
            buffer@ == s,
        decreases s.len() - pos,
    {
        let j = index_of(buffer.as_slice(), 10u8, pos);
        proof {
            lemma_index_of_from_bounds(s, 10u8, pos as int);
            lemma_index_of_from_skip(s, 10u8, pos as int, 0);
        }
        let ghost rest = s.skip(pos as int);
        if j >= buffer.len() {
            assert(complete_lines(rest) =~= Seq::<Seq<u8>>::empty());
            break;
        }
        let end = strip_cr_end(buffer.as_slice(), pos, j);
        proof {
            assert(rest.take(j - pos) =~= s.subrange(pos as int, j as int));
            assert(rest.skip(j - pos + 1) =~= s.skip(j + 1));
        }
        if end > pos {
            let line = copy_range(buffer.as_slice(), pos, end);
            proof {
                assert(done + complete_lines(rest) =~= (done + seq![line@]) + complete_lines(
                    s.skip(j + 1),
                ));
                done = done + seq![line@];
            }
            lines.push(line);
        } else {
            proof {
                assert(done + complete_lines(rest) =~= done + complete_lines(s.skip(j + 1)));
            }
        }
        pos = j + 1;
    }
    let ghost rest = s.skip(pos as int);
    assert(done =~= complete_lines(s));
    let len = buffer.len();
    let tail = copy_range(buffer.as_slice(), pos, len);
    assert(tail@ =~= rest);
    if tail.len() > RX_BUFFER_LIMIT {
        buffer.clear();
    } else {
        *buffer = tail;
    }
    lines
}

/// Before the end of `a`, searching `a + b` finds what searching `a` finds.
proof fn lemma_index_of_from_concat(a: Seq<u8>, b: Seq<u8>, sep: u8, k: int)
    requires
        0 <= k <= a.len(),
        index_of_from(a, sep, k) < a.len(),
    ensures
        index_of_from(a + b, sep, k) == index_of_from(a, sep, k),
    decreases a.len() - k,
{
    if a[k] != sep {
        lemma_index_of_from_concat(a, b, sep, k + 1);
    }
}

proof fn lemma_no_sep_from(s: Seq<u8>, sep: u8, k: int)
    requires
        0 <= k <= s.len(),
        index_of_from(s, sep, k) >= s.len(),
    ensures
        forall|i: int| k <= i < s.len() ==> s[i] != sep,
    decreases s.len() - k,
{
    lemma_index_of_from_bounds(s, sep, k);
}

proof fn lemma_strip_trailing_cr(l: Seq<u8>)
    ensures
        strip_trailing_cr(l).len() <= l.len(),
        strip_trailing_cr(l) == l.take(strip_trailing_cr(l).len() as int),
        strip_trailing_cr(l).len() > 0 ==> strip_trailing_cr(l).last() != 13u8,
    decreases l.len(),
{
    if l.len() > 0 && l.last() == 13u8 {
        lemma_strip_trailing_cr(l.drop_last());
        assert(l.drop_last().take(strip_trailing_cr(l).len() as int) =~= l.take(
            strip_trailing_cr(l).len() as int,
        ));
    } else {
        assert(l.take(l.len() as int) =~= l);
    }
}

/// Every line that framing yields is non-empty, holds no `\n`, and does not
/// end with a carriage return; the pending tail holds no `\n` and is what
/// `s` ends with.
pub proof fn law_framed_lines_are_clean(s: Seq<u8>)
    ensures
        forall|i: int|
            0 <= i < complete_lines(s).len() ==> {
                let line = #[trigger] complete_lines(s)[i];
                &&& line.len() > 0
                &&& line.last() != 13u8
                &&& forall|k: int| 0 <= k < line.len() ==> line[k] != 10u8
            },
        forall|k: int| 0 <= k < pending_tail(s).len() ==> pending_tail(s)[k] != 10u8,
        pending_tail(s).len() <= s.len(),
        pending_tail(s) == s.skip(s.len() - pending_tail(s).len()),
    decreases s.len(),
{
    let j = index_of_from(s, 10u8, 0);
    lemma_index_of_from_bounds(s, 10u8, 0);
    if 0 <= j < s.len() {
        let rest = s.skip(j + 1);
        law_framed_lines_are_clean(rest);
        let line = strip_trailing_cr(s.take(j));
        lemma_strip_trailing_cr(s.take(j));
        let head = if line.len() == 0 {
            Seq::<Seq<u8>>::empty()
        } else {
            seq![line]
        };
        assert(complete_lines(s) == head + complete_lines(rest));
        assert forall|i: int| 0 <= i < complete_lines(s).len() implies {
            let l = #[trigger] complete_lines(s)[i];
            &&& l.len() > 0
            &&& l.last() != 13u8
            &&& forall|k: int| 0 <= k < l.len() ==> l[k] != 10u8
        } by {
            if i < head.len() {
                assert(complete_lines(s)[i] == line);
                assert forall|k: int| 0 <= k < line.len() implies line[k] != 10u8 by {
                    assert(line[k] == s.take(j)[k]);
                }
            } else {
                assert(complete_lines(s)[i] == complete_lines(rest)[i - head.len()]);
            }
        }
        assert(rest.skip(rest.len() - pending_tail(rest).len()) =~= s.skip(
            s.len() - pending_tail(s).len(),
        ));
    } else {
        lemma_no_sep_from(s, 10u8, 0);
        assert(s.skip(0) =~= s);
    }
}

/// Framing is the same however the received bytes are split between reads:
/// the lines of `a`, then those of what the buffer keeps from `a` followed by
/// `b`, are the lines of `a + b`, and the buffer ends as it would have. This
/// holds while the pending tail of `a` is within the limit; past it the tail
/// is dropped.
pub proof fn law_split_reads_frame_alike(a: Seq<u8>, b: Seq<u8>)
    requires
        pending_tail(a).len() <= RX_BUFFER_LIMIT,
    ensures
        complete_lines(a) + complete_lines(kept_after_framing(a) + b) == complete_lines(a + b),
        pending_tail(kept_after_framing(a) + b) == pending_tail(a + b),
{
    lemma_split_reads(a, b);
}

/// `k` carriage returns.
pub open spec fn carriage_returns(k: nat) -> Seq<u8> {
    Seq::new(k, |i: int| 13u8)
}

proof fn lemma_strip_carriage_returns(l: Seq<u8>, k: nat)
    requires
        l.len() > 0,
        l.last() != 13u8,
    ensures
        strip_trailing_cr(l + carriage_returns(k)) == l,
    decreases k,
{
    if k == 0 {
        assert(l + carriage_returns(0) =~= l);
    } else {
        let k1 = (k - 1) as nat;
        assert((l + carriage_returns(k)).drop_last() =~= l + carriage_returns(k1));
        lemma_strip_carriage_returns(l, k1);
    }
}

/// A line end takes off only itself and the carriage returns just before
/// it: a non-empty line `l` with no `\n` that does not end in a carriage
/// return, followed by any number of carriage returns and a `\n`, frames as
/// exactly `l`, and framing goes on with what follows as if it stood alone.
pub proof fn law_line_end_removes_only_line_end(l: Seq<u8>, k: nat, rest: Seq<u8>)
    requires
        l.len() > 0,
        l.last() != 13u8,
        forall|i: int| 0 <= i < l.len() ==> l[i] != 10u8,
    ensures
        complete_lines(l + carriage_returns(k) + seq![10u8] + rest) == seq![l] + complete_lines(rest),
        pending_tail(l + carriage_returns(k) + seq![10u8] + rest) == pending_tail(rest),
{
    let s = l + carriage_returns(k) + seq![10u8] + rest;
    let p: int = (l.len() + k) as int;
    assert forall|i: int| 0 <= i < p implies s[i] != 10u8 by {
        if i < l.len() {
            assert(s[i] == l[i]);
        } else {
            assert(s[i] == carriage_returns(k)[i - l.len()]);
        }
    }
    assert(s[p] == 10u8);
    lemma_index_of_from_at(s, 10u8, 0, p);
    assert(s.take(p) =~= l + carriage_returns(k));
    assert(s.skip(p + 1) =~= rest);
    lemma_strip_carriage_returns(l, k);
    assert(complete_lines(s) =~= seq![l] + complete_lines(rest));
}

proof fn lemma_split_reads(a: Seq<u8>, b: Seq<u8>)
    ensures
        complete_lines(a) + complete_lines(pending_tail(a) + b) == complete_lines(a + b),
        pending_tail(pending_tail(a) + b) == pending_tail(a + b),
    decreases a.len(),
{
    let j = index_of_from(a, 10u8, 0);
    lemma_index_of_from_bounds(a, 10u8, 0);
    if 0 <= j < a.len() {
        let rest = a.skip(j + 1);
        lemma_index_of_from_concat(a, b, 10u8, 0);
        lemma_split_reads(rest, b);
        assert((a + b).take(j) =~= a.take(j));
        assert((a + b).skip(j + 1) =~= rest + b);
        let line = strip_trailing_cr(a.take(j));
        let head = if line.len() == 0 {
            Seq::<Seq<u8>>::empty()
        } else {
            seq![line]
        };
        assert(complete_lines(a + b) == head + complete_lines(rest + b));
        assert(complete_lines(a) == head + complete_lines(rest));
        assert(complete_lines(a) + complete_lines(pending_tail(a) + b) =~= head + (complete_lines(
            rest,
        ) + complete_lines(pending_tail(rest) + b)));
    } else {
        assert(complete_lines(a) =~= Seq::<Seq<u8>>::empty());
        assert(complete_lines(a) + complete_lines(pending_tail(a) + b) =~= complete_lines(a + b));
    }
}

} // verus!
