//! Framing codec: a logical command becomes a series of fixed-size device
//! reports, and raw reports are reassembled into a logical response.
//!
//! Each report carries one reserved leading byte (always zero) followed by up
//! to [`MAX_DATA_LENGTH`] payload bytes. A command is split into payload
//! chunks, each chunk is framed into one report, and one final short report
//! carries the line terminator alone.

use vstd::prelude::*;
use vstd::seq_lib::lemma_flatten_concat;

use crate::errors::UPSError;
use crate::MAX_DATA_LENGTH;
use crate::MAX_DATA_LOOP;
use crate::TERMINATOR;

verus! {

/// The payload chunks of a command: successive runs of [`MAX_DATA_LENGTH`]
/// bytes, the last one possibly shorter, none empty.
pub open spec fn chunks_of(s: Seq<u8>) -> Seq<Seq<u8>>
    decreases s.len(),
{
    if s.len() == 0 {
        Seq::empty()
    } else if s.len() <= MAX_DATA_LENGTH as int {
        seq![s]
    } else {
        seq![s.take(MAX_DATA_LENGTH as int)] + chunks_of(s.skip(MAX_DATA_LENGTH as int))
    }
}

/// Concatenating the chunks of a command gives the command back.
pub proof fn lemma_chunks_flatten(s: Seq<u8>)
    ensures
        chunks_of(s).flatten() == s,
    decreases s.len(),
{
    if s.len() == 0 {
        assert(chunks_of(s).flatten() =~= s);
    } else if s.len() <= MAX_DATA_LENGTH as int {
        seq![s].lemma_flatten_singleton();
        assert(chunks_of(s).flatten() =~= s);
    } else {
        let head = s.take(MAX_DATA_LENGTH as int);
        let tail = s.skip(MAX_DATA_LENGTH as int);
        lemma_chunks_flatten(tail);
        lemma_flatten_concat(seq![head], chunks_of(tail));
        seq![head].lemma_flatten_singleton();
        assert(head + tail =~= s);
    }
}

/// Chunking a command splits cleanly at any chunk-aligned position.
proof fn lemma_chunks_decompose(s: Seq<u8>, i: int)
    requires
        0 <= i <= s.len(),
        i % MAX_DATA_LENGTH as int == 0,
    ensures
        chunks_of(s) == chunks_of(s.take(i)) + chunks_of(s.skip(i)),
    decreases i,
{
    let m = MAX_DATA_LENGTH as int;
    if i == 0 {
        assert(s.take(0) =~= Seq::<u8>::empty());
        assert(s.skip(0) =~= s);
        assert(chunks_of(s) =~= chunks_of(s.take(0)) + chunks_of(s.skip(0)));
    } else if s.len() <= m {
        assert(i == m && s.len() == m) by {
            assert(0 < i <= m && i % m == 0);
        }
        assert(s.take(i) =~= s);
        assert(s.skip(i) =~= Seq::<u8>::empty());
        assert(chunks_of(s) =~= chunks_of(s.take(i)) + chunks_of(s.skip(i)));
    } else {
        if i == m {
            assert(chunks_of(s.take(m)) =~= seq![s.take(m)]);
            assert(chunks_of(s) =~= chunks_of(s.take(i)) + chunks_of(s.skip(i)));
        } else {
            let tail = s.skip(m);
            lemma_chunks_decompose(tail, i - m);
            assert((i - m) % m == 0) by {
                assert(i == (i / m) * m) by {
                    vstd::arithmetic::div_mod::lemma_fundamental_div_mod(i, m);
                }
                assert(i - m == (i / m - 1) * m) by (nonlinear_arith)
                    requires
                        i == (i / m) * m,
                ;
                vstd::arithmetic::div_mod::lemma_mod_multiples_basic(i / m - 1, m);
            }
            assert(tail.take(i - m) =~= s.take(i).skip(m));
            assert(tail.skip(i - m) =~= s.skip(i));
            assert(s.take(i).take(m) =~= s.take(m));
            assert(chunks_of(s.take(i)) == seq![s.take(m)] + chunks_of(s.take(i).skip(m)));
            assert(chunks_of(s) =~= chunks_of(s.take(i)) + chunks_of(s.skip(i)));
        }
    }
}

/// Split a command's bytes into payload chunks of at most
/// [`MAX_DATA_LENGTH`] bytes each.
pub fn split_command(cmd: &Vec<u8>) -> (chunks: Vec<Vec<u8>>)
    ensures
        chunks@.len() == chunks_of(cmd@).len(),
        forall|j: int|
            0 <= j < chunks@.len() ==> #[trigger] chunks@[j]@ == chunks_of(cmd@)[j],
{
    let mut chunks: Vec<Vec<u8>> = Vec::new();
    let mut i: usize = 0;
    while i < cmd.len()
        invariant
            0 <= i <= cmd@.len(),
            i % MAX_DATA_LENGTH == 0 || i == cmd@.len(),
            chunks@.len() == chunks_of(cmd@.take(i as int)).len(),
            forall|j: int|
                0 <= j < chunks@.len() ==> #[trigger] chunks@[j]@ == chunks_of(
                    cmd@.take(i as int),
                )[j],
        decreases cmd@.len() - i,
    {
        proof {
            if i % MAX_DATA_LENGTH != 0 {
                // then i == cmd@.len(), contradicting the loop condition
                assert(false);
            }
        }
        let k: usize = if cmd.len() - i >= MAX_DATA_LENGTH {
            MAX_DATA_LENGTH
        } else {
            cmd.len() - i
        };
        let mut chunk: Vec<u8> = Vec::new();
        let mut j: usize = 0;
        while j < k
            invariant
                0 <= j <= k,
                i + k <= cmd@.len(),
                i + k <= usize::MAX,
                chunk@ == cmd@.subrange(i as int, i + j),
            decreases k - j,
        {
            let b = cmd[i + j];
            chunk.push(b);
            proof {
                assert(cmd@.subrange(i as int, i + j + 1) =~= cmd@.subrange(i as int, i + j).push(
                    cmd@[i + j],
                ));
            }
            j = j + 1;
        }
        let ghost i2 = i + k;
        proof {
            lemma_chunks_decompose(cmd@.take(i2 as int), i as int);
            assert(cmd@.take(i2 as int).take(i as int) =~= cmd@.take(i as int));
            let piece = cmd@.take(i2 as int).skip(i as int);
            assert(piece =~= cmd@.subrange(i as int, i2 as int));
            assert(0 < piece.len() <= MAX_DATA_LENGTH as int);
            assert(chunks_of(piece) =~= seq![piece]);
            assert(chunks_of(cmd@.take(i2 as int)) == chunks_of(cmd@.take(i as int)) + seq![piece]);
        }
        chunks.push(chunk);
        i = i + k;
    }
    proof {
        assert(cmd@.take(i as int) =~= cmd@);
    }
    chunks
}

/// True when `p` is the device report that frames payload chunk `c`: one
/// reserved zero byte, the chunk, then zero padding.
pub open spec fn is_frame_of(p: Seq<u8>, c: Seq<u8>) -> bool {
    &&& p.len() == MAX_DATA_LENGTH + 1
    &&& p[0] == 0u8
    &&& forall|b: int| 0 <= b < c.len() ==> p[b + 1] == c[b]
    &&& forall|b: int| c.len() <= b < MAX_DATA_LENGTH as int ==> #[trigger] p[b + 1] == 0u8
}

/// Frame one payload chunk into a full-size device report.
pub fn frame_chunk(chunk: &Vec<u8>) -> (p: Vec<u8>)
    requires
        chunk@.len() <= MAX_DATA_LENGTH as int,
    ensures
        is_frame_of(p@, chunk@),
{
    let mut p: Vec<u8> = Vec::new();
    p.push(0u8);
    let mut j: usize = 0;
    while j < chunk.len()
        invariant
            0 <= j <= chunk@.len(),
            p@.len() == j + 1,
            p@[0] == 0u8,
            forall|b: int| 0 <= b < j ==> p@[b + 1] == chunk@[b],
        decreases chunk@.len() - j,
    {
        let b = chunk[j];
        p.push(b);
        j = j + 1;
    }
    while j < MAX_DATA_LENGTH
        invariant
            chunk@.len() <= j <= MAX_DATA_LENGTH as int,
            p@.len() == j + 1,
            p@[0] == 0u8,
            forall|b: int| 0 <= b < chunk@.len() ==> p@[b + 1] == chunk@[b],
            forall|b: int| chunk@.len() <= b < j ==> #[trigger] p@[b + 1] == 0u8,
        decreases MAX_DATA_LENGTH - j,
    {
        p.push(0u8);
        j = j + 1;
    }
    p
}

/// Build every device report for one command: one framed report per payload
/// chunk, then the short report that carries the terminator alone.
pub fn build_packets(cmd: &Vec<u8>) -> (packets: Vec<Vec<u8>>)
    ensures
        packets@.len() == chunks_of(cmd@).len() + 1,
        forall|j: int|
            0 <= j < chunks_of(cmd@).len() ==> is_frame_of(
                #[trigger] packets@[j]@,
                chunks_of(cmd@)[j],
            ),
        packets@.last()@ == seq![0u8, TERMINATOR],
{
    let chunks = split_command(cmd);
    let mut packets: Vec<Vec<u8>> = Vec::new();
    let mut j: usize = 0;
    while j < chunks.len()
        invariant
            0 <= j <= chunks@.len(),
            chunks@.len() == chunks_of(cmd@).len(),
            forall|t: int|
                0 <= t < chunks@.len() ==> #[trigger] chunks@[t]@ == chunks_of(cmd@)[t],
            packets@.len() == j,
            forall|t: int|
                0 <= t < j ==> is_frame_of(#[trigger] packets@[t]@, chunks_of(cmd@)[t]),
        decreases chunks@.len() - j,
    {
        proof {
            // every chunk fits in one report payload
            assert(chunks_of(cmd@)[j as int].len() <= MAX_DATA_LENGTH as int) by {
                lemma_chunk_len(cmd@, j as int);
            }
        }
        let p = frame_chunk(&chunks[j]);
        packets.push(p);
        j = j + 1;
    }
    let mut term: Vec<u8> = Vec::new();
    term.push(0u8);
    term.push(TERMINATOR);
    proof {
        assert(term@ =~= seq![0u8, TERMINATOR]);
    }
    packets.push(term);
    packets
}

/// Every payload chunk is nonempty and no longer than one report's payload.
pub proof fn lemma_chunk_len(s: Seq<u8>, j: int)
    requires
        0 <= j < chunks_of(s).len(),
    ensures
        0 < chunks_of(s)[j].len() <= MAX_DATA_LENGTH as int,
    decreases s.len(),
{
    if s.len() == 0 {
    } else if s.len() <= MAX_DATA_LENGTH as int {
    } else {
        if j > 0 {
            lemma_chunk_len(s.skip(MAX_DATA_LENGTH as int), j - 1);
        }
    }
}

/// Splitting a command into reports and reassembling the payload bytes in
/// order yields exactly the command's bytes followed by one terminator byte;
/// when the command itself holds no terminator byte, that final byte is the
/// only terminator in the reassembled stream.
pub proof fn lemma_command_round_trip(cmd: Seq<u8>)
    requires
        cmd.len() > MAX_DATA_LENGTH as int,
    ensures
        (chunks_of(cmd) + seq![seq![TERMINATOR]]).flatten() == cmd + seq![TERMINATOR],
        (forall|i: int| 0 <= i < cmd.len() ==> cmd[i] != TERMINATOR) ==> {
            let flat = (chunks_of(cmd) + seq![seq![TERMINATOR]]).flatten();
            &&& flat.len() == cmd.len() + 1
            &&& flat.last() == TERMINATOR
            &&& forall|i: int| 0 <= i < flat.len() - 1 ==> flat[i] != TERMINATOR
        },
{
    lemma_chunks_flatten(cmd);
    lemma_flatten_concat(chunks_of(cmd), seq![seq![TERMINATOR]]);
    seq![seq![TERMINATOR]].lemma_flatten_singleton();
}

/// What absorbing the bytes of one report into the accumulator yields: the
/// new accumulator and whether a stop condition was met. Bytes are taken one
/// at a time; a terminator byte stops at once without being kept, and when an
/// expected length is given, reaching it stops as well.
pub open spec fn absorb(acc: Seq<u8>, data: Seq<u8>, expected: Option<usize>) -> (Seq<u8>, bool)
    decreases data.len(),
{
    if data.len() == 0 {
        (acc, false)
    } else if data[0] == TERMINATOR {
        (acc, true)
    } else {
        let acc2 = acc.push(data[0]);
        if expected matches Some(l) && acc2.len() == l as int {
            (acc2, true)
        } else {
            absorb(acc2, data.skip(1), expected)
        }
    }
}

/// Concatenation of the byte contents of a series of reads.
pub open spec fn flatten_reads(reads: Seq<Vec<u8>>) -> Seq<u8>
    decreases reads.len(),
{
    if reads.len() == 0 {
        Seq::empty()
    } else {
        reads[0]@ + flatten_reads(reads.skip(1))
    }
}

/// What `receive` returns for a given series of reads: reads are consumed in
/// order while the budget lasts; a read that returned nothing is a timeout,
/// and a run out of reads or budget without a stop condition is the generic
/// failure.
pub open spec fn receive_spec(
    reads: Seq<Vec<u8>>,
    expected: Option<usize>,
    acc: Seq<u8>,
    budget: nat,
) -> Result<Seq<u8>, UPSError>
    decreases budget,
{
    if budget == 0 || reads.len() == 0 {
        Err(UPSError::Unknown)
    } else if reads[0]@.len() == 0 {
        Err(UPSError::Timeout)
    } else {
        let step = absorb(acc, reads[0]@, expected);
        if step.1 {
            Ok(step.0)
        } else {
            receive_spec(reads.skip(1), expected, step.0, (budget - 1) as nat)
        }
    }
}

/// Absorb the bytes of one raw report into the response accumulator.
/// Returns true when a stop condition was met: a terminator byte was seen
/// (and excluded), or the accumulator reached the expected length.
pub fn receive_step(acc: &mut Vec<u8>, data: &Vec<u8>, expected: Option<usize>) -> (done: bool)
    ensures
        final(acc)@ == absorb(old(acc)@, data@, expected).0,
        done == absorb(old(acc)@, data@, expected).1,
{
    let mut j: usize = 0;
    proof {
        assert(data@.skip(0) =~= data@);
    }
    while j < data.len()
        invariant
            0 <= j <= data@.len(),
            absorb(old(acc)@, data@, expected) == absorb(acc@, data@.skip(j as int), expected),
        decreases data@.len() - j,
    {
        let b = data[j];
        proof {
            assert(data@.skip(j as int)[0] == data@[j as int]);
            assert(data@.skip(j as int).skip(1) =~= data@.skip(j + 1));
        }
        if b == TERMINATOR {
            return true;
        }
        acc.push(b);
        if let Some(l) = expected {
            if acc.len() == l {
                return true;
            }
        }
        j = j + 1;
    }
    proof {
        assert(data@.skip(data@.len() as int) =~= Seq::<u8>::empty());
    }
    false
}

/// Reassemble one logical response from a series of raw report reads.
///
/// Each element of `reads` is the byte content of one read, in order; an
/// empty element stands for a read that returned no data within its deadline,
/// which fails the attempt with `Timeout`. At most [`MAX_DATA_LOOP`] reads
/// are consumed; if neither stop condition is met within the reads given, the
/// exchange fails with `Unknown`.
pub fn receive(reads: &Vec<Vec<u8>>, expected: Option<usize>) -> (r: Result<Vec<u8>, UPSError>)
    ensures
        ({
            let spec_r = receive_spec(reads@, expected, Seq::empty(), MAX_DATA_LOOP as nat);
            match r {
                Ok(v) => spec_r matches Ok(sv) && v@ == sv,
                Err(e) => spec_r matches Err(se) && e == se,
            }
        }),
{
    let mut acc: Vec<u8> = Vec::new();
    let mut i: usize = 0;
    proof {
        assert(reads@.skip(0) =~= reads@);
        assert(acc@ =~= Seq::<u8>::empty());
    }
    while i < MAX_DATA_LOOP
        invariant
            0 <= i <= MAX_DATA_LOOP,
            i <= reads@.len(),
            receive_spec(reads@, expected, Seq::empty(), MAX_DATA_LOOP as nat) == receive_spec(
                reads@.skip(i as int),
                expected,
                acc@,
                (MAX_DATA_LOOP - i) as nat,
            ),
        decreases MAX_DATA_LOOP - i,
    {
        if i >= reads.len() {
            return Err(UPSError::Unknown);
        }
        proof {
            assert(reads@.skip(i as int)[0] == reads@[i as int]);
            assert(reads@.skip(i as int).skip(1) =~= reads@.skip(i + 1));
        }
        let data = &reads[i];
        if data.len() == 0 {
            return Err(UPSError::Timeout);
        }
        let done = receive_step(&mut acc, data, expected);
        if done {
            return Ok(acc);
        }
        i = i + 1;
    }
    Err(UPSError::Unknown)
}

/// The bytes of the shutdown command: `S`, the delay, `R`, the restart
/// count. A delay under one minute is written `.t` with its tenths digit; a
/// longer one is written as its whole minutes in two digits. The restart
/// count is written in four digits; zero means no restart.
pub open spec fn shutdown_command_spec(delay_tenths: u32, restart: u32) -> Seq<u8> {
    let r = restart as int;
    let restart_digits = seq![
        (48 + r / 1000) as u8,
        (48 + (r / 100) % 10) as u8,
        (48 + (r / 10) % 10) as u8,
        (48 + r % 10) as u8,
    ];
    if delay_tenths < 10 {
        seq![83u8, 46u8, (48 + delay_tenths as int) as u8, 82u8] + restart_digits
    } else {
        let m = delay_tenths as int / 10;
        seq![83u8, (48 + m / 10) as u8, (48 + m % 10) as u8, 82u8] + restart_digits
    }
}

/// Format the shutdown command for a delay in tenths of a minute and a
/// restart delay in minutes. The wire format carries at most two minute
/// digits and four restart digits.
pub fn shutdown_command(delay_tenths: u32, restart: u32) -> (cmd: Vec<u8>)
    requires
        delay_tenths <= 999,
        restart <= 9999,
    ensures
        cmd@ == shutdown_command_spec(delay_tenths, restart),
{
    let mut cmd: Vec<u8> = Vec::new();
    cmd.push(83);
    if delay_tenths < 10 {
        cmd.push(46);
        cmd.push(48 + delay_tenths as u8);
    } else {
        let m: u32 = delay_tenths / 10;
        cmd.push(48 + (m / 10) as u8);
        cmd.push(48 + (m % 10) as u8);
    }
    cmd.push(82);
    cmd.push(48 + (restart / 1000) as u8);
    cmd.push(48 + ((restart / 100) % 10) as u8);
    cmd.push(48 + ((restart / 10) % 10) as u8);
    cmd.push(48 + (restart % 10) as u8);
    proof {
        assert(cmd@ =~= shutdown_command_spec(delay_tenths, restart));
    }
    cmd
}

/// Absorbing terminator-free bytes keeps them all and does not stop.
proof fn lemma_absorb_no_terminator(acc: Seq<u8>, data: Seq<u8>)
    requires
        forall|i: int| 0 <= i < data.len() ==> data[i] != TERMINATOR,
    ensures
        absorb(acc, data, Option::None) == (acc + data, false),
    decreases data.len(),
{
    if data.len() == 0 {
        assert(acc + data =~= acc);
    } else {
        lemma_absorb_no_terminator(acc.push(data[0]), data.skip(1));
        assert(acc.push(data[0]) + data.skip(1) =~= acc + data);
    }
}

/// Absorbing bytes whose first terminator stands at `t` stops there, keeping
/// exactly the bytes before it.
proof fn lemma_absorb_terminator(acc: Seq<u8>, data: Seq<u8>, t: int)
    requires
        0 <= t < data.len(),
        data[t] == TERMINATOR,
        forall|q: int| 0 <= q < t ==> data[q] != TERMINATOR,
    ensures
        absorb(acc, data, Option::None) == (acc + data.take(t), true),
    decreases data.len(),
{
    if t == 0 {
        assert(acc + data.take(0) =~= acc);
    } else {
        lemma_absorb_terminator(acc.push(data[0]), data.skip(1), t - 1);
        assert(acc.push(data[0]) + data.skip(1).take(t - 1) =~= acc + data.take(t));
    }
}

/// Absorbing towards an expected length stops exactly when the accumulator
/// reaches it, whatever the bytes hold, as long as no terminator stands
/// before that point.
proof fn lemma_absorb_fixed_length(acc: Seq<u8>, data: Seq<u8>, l: usize)
    requires
        acc.len() < l,
        forall|i: int| 0 <= i < data.len() && i < l - acc.len() ==> data[i] != TERMINATOR,
    ensures
        data.len() >= l - acc.len() ==> absorb(acc, data, Option::Some(l)) == (
            acc + data.take(l - acc.len()),
            true,
        ),
        data.len() < l - acc.len() ==> absorb(acc, data, Option::Some(l)) == (acc + data, false),
    decreases data.len(),
{
    if data.len() == 0 {
        assert(acc + data =~= acc);
    } else {
        let acc2 = acc.push(data[0]);
        if acc2.len() == l as int {
            assert(acc + data.take(l - acc.len()) =~= acc2);
        } else {
            lemma_absorb_fixed_length(acc2, data.skip(1), l);
            if data.len() >= l - acc.len() {
                assert(acc2 + data.skip(1).take(l - acc2.len()) =~= acc + data.take(
                    l - acc.len(),
                ));
            } else {
                assert(acc2 + data.skip(1) =~= acc + data);
            }
        }
    }
}

proof fn lemma_receive_terminator_general(reads: Seq<Vec<u8>>, p: int, acc: Seq<u8>, budget: nat)
    requires
        0 < reads.len() <= budget,
        forall|i: int| 0 <= i < reads.len() ==> (#[trigger] reads[i])@.len() > 0,
        0 <= p < flatten_reads(reads).len(),
        flatten_reads(reads)[p] == TERMINATOR,
        forall|q: int| 0 <= q < p ==> flatten_reads(reads)[q] != TERMINATOR,
    ensures
        receive_spec(reads, Option::None, acc, budget) == Ok::<Seq<u8>, UPSError>(
            acc + flatten_reads(reads).take(p),
        ),
    decreases reads.len(),
{
    let f0 = reads[0]@;
    let rest = reads.skip(1);
    assert(flatten_reads(reads) == f0 + flatten_reads(rest));
    if p < f0.len() {
        assert(f0[p] == flatten_reads(reads)[p]);
        assert forall|q: int| 0 <= q < p implies f0[q] != TERMINATOR by {
            assert(flatten_reads(reads)[q] == f0[q]);
        }
        lemma_absorb_terminator(acc, f0, p);
        assert(f0.take(p) =~= flatten_reads(reads).take(p));
    } else {
        assert forall|i: int| 0 <= i < f0.len() implies f0[i] != TERMINATOR by {
            assert(flatten_reads(reads)[i] == f0[i]);
        }
        lemma_absorb_no_terminator(acc, f0);
        assert forall|q: int| 0 <= q < p - f0.len() implies flatten_reads(rest)[q] != TERMINATOR by {
            assert(flatten_reads(reads)[q + f0.len()] == flatten_reads(rest)[q]);
        }
        assert(flatten_reads(rest)[p - f0.len()] == flatten_reads(reads)[p]);
        lemma_receive_terminator_general(rest, p - f0.len(), acc + f0, (budget - 1) as nat);
        assert((acc + f0) + flatten_reads(rest).take(p - f0.len()) =~= acc + flatten_reads(
            reads,
        ).take(p));
    }
}

/// For every series of nonempty reads within the budget whose byte stream
/// holds a terminator, receiving without an expected length stops at the
/// first terminator and returns exactly the bytes before it, the terminator
/// excluded.
pub proof fn lemma_receive_stops_at_terminator(reads: Seq<Vec<u8>>, p: int)
    requires
        0 < reads.len() <= MAX_DATA_LOOP as int,
        forall|i: int| 0 <= i < reads.len() ==> (#[trigger] reads[i])@.len() > 0,
        0 <= p < flatten_reads(reads).len(),
        flatten_reads(reads)[p] == TERMINATOR,
        forall|q: int| 0 <= q < p ==> flatten_reads(reads)[q] != TERMINATOR,
    ensures
        receive_spec(reads, Option::None, Seq::empty(), MAX_DATA_LOOP as nat) == Ok::<
            Seq<u8>,
            UPSError,
        >(flatten_reads(reads).take(p)),
        forall|q: int|
            0 <= q < p ==> #[trigger] flatten_reads(reads).take(p)[q] != TERMINATOR,
{
    lemma_receive_terminator_general(reads, p, Seq::empty(), MAX_DATA_LOOP as nat);
    assert(Seq::empty() + flatten_reads(reads).take(p) =~= flatten_reads(reads).take(p));
}

proof fn lemma_receive_fixed_length_general(reads: Seq<Vec<u8>>, l: usize, acc: Seq<u8>, budget: nat)
    requires
        0 < reads.len() <= budget,
        forall|i: int| 0 <= i < reads.len() ==> (#[trigger] reads[i])@.len() > 0,
        acc.len() < l,
        acc.len() + flatten_reads(reads).len() >= l,
        forall|q: int|
            0 <= q < l - acc.len() ==> flatten_reads(reads)[q] != TERMINATOR,
    ensures
        receive_spec(reads, Option::Some(l), acc, budget) == Ok::<Seq<u8>, UPSError>(
            acc + flatten_reads(reads).take(l - acc.len()),
        ),
    decreases reads.len(),
{
    let f0 = reads[0]@;
    let rest = reads.skip(1);
    assert(flatten_reads(reads) == f0 + flatten_reads(rest));
    assert forall|i: int| 0 <= i < f0.len() && i < l - acc.len() implies f0[i] != TERMINATOR by {
        assert(flatten_reads(reads)[i] == f0[i]);
    }
    lemma_absorb_fixed_length(acc, f0, l);
    if f0.len() >= l - acc.len() {
        assert(f0.take(l - acc.len()) =~= flatten_reads(reads).take(l - acc.len()));
    } else {
        let acc2 = acc + f0;
        assert forall|q: int| 0 <= q < l - acc2.len() implies flatten_reads(rest)[q]
            != TERMINATOR by {
            assert(flatten_reads(reads)[q + f0.len()] == flatten_reads(rest)[q]);
        }
        lemma_receive_fixed_length_general(rest, l, acc2, (budget - 1) as nat);
        assert(acc2 + flatten_reads(rest).take(l - acc2.len()) =~= acc + flatten_reads(
            reads,
        ).take(l - acc.len()));
    }
}

/// For a fixed-length reply with no terminator among its first `l` bytes,
/// receiving with expected length `l` stops exactly when the accumulator
/// reaches `l` bytes, whatever those bytes hold.
pub proof fn lemma_receive_stops_at_length(reads: Seq<Vec<u8>>, l: usize)
    requires
        0 < reads.len() <= MAX_DATA_LOOP as int,
        forall|i: int| 0 <= i < reads.len() ==> (#[trigger] reads[i])@.len() > 0,
        1 <= l <= flatten_reads(reads).len(),
        forall|q: int| 0 <= q < l ==> flatten_reads(reads)[q] != TERMINATOR,
    ensures
        receive_spec(reads, Option::Some(l), Seq::empty(), MAX_DATA_LOOP as nat) == Ok::<
            Seq<u8>,
            UPSError,
        >(flatten_reads(reads).take(l as int)),
{
    lemma_receive_fixed_length_general(reads, l, Seq::empty(), MAX_DATA_LOOP as nat);
    assert(Seq::empty() + flatten_reads(reads).take(l as int) =~= flatten_reads(reads).take(
        l as int,
    ));
}

} // verus!
