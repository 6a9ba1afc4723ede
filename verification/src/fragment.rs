//! Rewriting of one TLS record into a run of smaller records.
//!
//! Only the five-byte record header is read: the record type, the two
//! version bytes and the big-endian length. The body is never interpreted.

use vstd::prelude::*;

verus! {

/// The TLS record type of a handshake record.
pub const HANDSHAKE: u8 = 0x16;

/// The largest body that the two length bytes of a record can announce.
pub const MAX_BODY: usize = 0xFFFF;

/// Whether the first three bytes of a stream open a handshake record that is
/// to be fragmented: the type byte is `0x16` and the minor version byte is
/// below 4.
pub open spec fn is_handshake(header: Seq<u8>) -> bool {
    &&& header.len() == 3
    &&& header[0] == HANDSHAKE
    &&& header[2] < 4
}

/// Decides from the first three bytes of a stream whether a handshake record
/// follows.
pub fn is_handshake_header(header: &[u8; 3]) -> (b: bool)
    ensures
        b == is_handshake(header@),
{
    header[0] == HANDSHAKE && header[2] < 4
}

/// The two length bytes of a record whose body holds `n` bytes, high byte
/// first.
pub open spec fn length_bytes(n: nat) -> Seq<u8> {
    seq![(n / 256) as u8, (n % 256) as u8]
}

/// The length that two length bytes announce.
pub open spec fn announced_length(high: u8, low: u8) -> nat {
    (high as nat) * 256 + (low as nat)
}

/// How many bytes the next piece takes from `remaining` bytes.
pub open spec fn piece_length(remaining: nat, chunk: nat) -> nat {
    if remaining < chunk {
        remaining
    } else {
        chunk
    }
}

/// The body cut into consecutive pieces of `chunk` bytes, the last one
/// possibly shorter. An empty body has no pieces.
pub open spec fn pieces(body: Seq<u8>, chunk: nat) -> Seq<Seq<u8>>
    decreases body.len(),
{
    if body.len() == 0 || chunk == 0 {
        Seq::empty()
    } else {
        let n = piece_length(body.len(), chunk) as int;
        seq![body.take(n)] + pieces(body.skip(n), chunk)
    }
}

/// One record on the wire: the three header bytes, the length of the body
/// in two bytes, the body.
pub open spec fn record(header: Seq<u8>, body: Seq<u8>) -> Seq<u8> {
    header + length_bytes(body.len()) + body
}

/// The records that carry `bodies` under one header, one after the other.
pub open spec fn records(header: Seq<u8>, bodies: Seq<Seq<u8>>) -> Seq<u8>
    decreases bodies.len(),
{
    if bodies.len() == 0 {
        Seq::empty()
    } else {
        record(header, bodies.first()) + records(header, bodies.drop_first())
    }
}

/// What is sent upstream in place of a handshake record with the given
/// header and body.
pub open spec fn fragmented(header: Seq<u8>, body: Seq<u8>, chunk: nat) -> Seq<u8> {
    records(header, pieces(body, chunk))
}

proof fn lemma_fragmented_unfold(header: Seq<u8>, body: Seq<u8>, chunk: nat)
    requires
        body.len() > 0,
        chunk > 0,
    ensures
        fragmented(header, body, chunk) == record(
            header,
            body.take(piece_length(body.len(), chunk) as int),
        ) + fragmented(header, body.skip(piece_length(body.len(), chunk) as int), chunk),
{
    let n = piece_length(body.len(), chunk) as int;
    let all = pieces(body, chunk);
    assert(all == seq![body.take(n)] + pieces(body.skip(n), chunk));
    assert(all.first() == body.take(n));
    assert(all.drop_first() =~= pieces(body.skip(n), chunk));
}

/// How many pieces a body of `len` bytes is cut into: `len / chunk`, rounded
/// up.
pub open spec fn piece_count(len: nat, chunk: nat) -> nat {
    ((len + chunk - 1) / (chunk as int)) as nat
}

/// One record as it is read back from a stream: its three header bytes and
/// its body.
pub struct WireRecord {
    pub header: Seq<u8>,
    pub body: Seq<u8>,
}

/// The records that a stream holds, read from its start for as long as a
/// whole record follows.
pub open spec fn read_records(stream: Seq<u8>) -> Seq<WireRecord>
    decreases stream.len(),
{
    if stream.len() < 5 {
        Seq::empty()
    } else {
        let n = announced_length(stream[3], stream[4]) as int;
        if stream.len() < 5 + n {
            Seq::empty()
        } else {
            seq![WireRecord { header: stream.take(3), body: stream.subrange(5, 5 + n) }]
                + read_records(stream.skip(5 + n))
        }
    }
}

/// The bodies of `records`, joined in order.
pub open spec fn joined_bodies(records: Seq<WireRecord>) -> Seq<u8>
    decreases records.len(),
{
    if records.len() == 0 {
        Seq::empty()
    } else {
        records.first().body + joined_bodies(records.drop_first())
    }
}

proof fn lemma_piece_count_step(len: nat, chunk: nat)
    requires
        chunk > 0,
        len > 0,
    ensures
        piece_count(len, chunk) == 1 + piece_count(
            (len - piece_length(len, chunk)) as nat,
            chunk,
        ),
{
    let c = chunk as int;
    if len < chunk {
        assert((len + c - 1) / c == 1) by (nonlinear_arith)
            requires
                0 < len < c,
        ;
        assert((0 + c - 1) / c == 0) by (nonlinear_arith)
            requires
                0 < c,
        ;
    } else {
        assert((len + c - 1) / c == 1 + (len - c + c - 1) / c) by (nonlinear_arith)
            requires
                0 < c <= len,
        ;
    }
}

/// Cutting a body into pieces loses and reorders nothing: there are
/// `len / chunk` pieces, rounded up, none of them empty or longer than
/// `chunk`, and joined in order they are the body again.
pub proof fn pieces_cover_body(body: Seq<u8>, chunk: nat)
    requires
        chunk > 0,
    ensures
        pieces(body, chunk).len() == piece_count(body.len(), chunk),
        pieces(body, chunk).flatten() == body,
        forall|i: int|
            0 <= i < pieces(body, chunk).len() ==> 0 < (#[trigger] pieces(body, chunk)[i]).len()
                <= chunk,
        forall|i: int|
            0 <= i < pieces(body, chunk).len() ==> (#[trigger] pieces(body, chunk)[i]).len()
                <= body.len(),
    decreases body.len(),
{
    if body.len() == 0 {
        assert((0 + chunk - 1) / (chunk as int) == 0) by (nonlinear_arith)
            requires
                chunk > 0,
        ;
    } else {
        let n = piece_length(body.len(), chunk) as int;
        let rest = body.skip(n);
        let all = pieces(body, chunk);
        pieces_cover_body(rest, chunk);
        lemma_piece_count_step(body.len(), chunk);
        assert(all.first() == body.take(n));
        assert(all.drop_first() =~= pieces(rest, chunk));
        assert(all.flatten() =~= body.take(n) + rest);
        assert(body.take(n) + rest =~= body);
        assert forall|i: int| 0 <= i < all.len() implies 0 < (#[trigger] all[i]).len() <= chunk
            && all[i].len() <= body.len() by {
            if i > 0 {
                assert(all[i] == pieces(rest, chunk)[i - 1]);
            }
        }
    }
}

proof fn lemma_length_bytes_read_back(n: nat)
    requires
        n <= MAX_BODY,
    ensures
        length_bytes(n).len() == 2,
        announced_length(length_bytes(n)[0], length_bytes(n)[1]) == n,
{
}

proof fn lemma_read_first_record(header: Seq<u8>, body: Seq<u8>, rest: Seq<u8>)
    requires
        header.len() == 3,
        body.len() <= MAX_BODY,
    ensures
        read_records(record(header, body) + rest) == seq![WireRecord { header, body }]
            + read_records(rest),
{
    let stream = record(header, body) + rest;
    lemma_length_bytes_read_back(body.len());
    assert(stream[3] == length_bytes(body.len())[0]);
    assert(stream[4] == length_bytes(body.len())[1]);
    assert(stream.take(3) =~= header);
    let n = body.len() as int;
    assert(stream.subrange(5, 5 + n) =~= body);
    assert(stream.skip(5 + n) =~= rest);
}

proof fn lemma_read_back(header: Seq<u8>, bodies: Seq<Seq<u8>>)
    requires
        header.len() == 3,
        forall|i: int| 0 <= i < bodies.len() ==> (#[trigger] bodies[i]).len() <= MAX_BODY,
    ensures
        read_records(records(header, bodies)).len() == bodies.len(),
        forall|i: int|
            0 <= i < bodies.len() ==> #[trigger] read_records(records(header, bodies))[i]
                == (WireRecord { header, body: bodies[i] }),
        joined_bodies(read_records(records(header, bodies))) == bodies.flatten(),
    decreases bodies.len(),
{
    if bodies.len() == 0 {
    } else {
        let tail = bodies.drop_first();
        lemma_read_back(header, tail);
        lemma_read_first_record(header, bodies.first(), records(header, tail));
        let read = read_records(records(header, bodies));
        assert(read.first() == WireRecord { header, body: bodies.first() });
        assert(read.drop_first() =~= read_records(records(header, tail)));
        assert forall|i: int| 0 <= i < bodies.len() implies #[trigger] read[i] == (WireRecord {
            header,
            body: bodies[i],
        }) by {
            if i > 0 {
                assert(read[i] == read_records(records(header, tail))[i - 1]);
                assert(tail[i - 1] == bodies[i]);
            }
        }
    }
}

/// A reader of the fragmented stream finds the record's payload intact. For
/// a handshake record with body length `L` and chunk size `C`, the stream
/// holds `L / C` records, rounded up; each carries the record's own three header
/// bytes and between 1 and `C` bytes of body; and the bodies, joined in
/// order, are the record's body again.
pub proof fn fragments_carry_body(header: Seq<u8>, body: Seq<u8>, chunk: nat)
    requires
        header.len() == 3,
        chunk > 0,
        body.len() <= MAX_BODY,
    ensures
        read_records(fragmented(header, body, chunk)).len() == piece_count(body.len(), chunk),
        forall|i: int|
            0 <= i < piece_count(body.len(), chunk) ==> {
                let r = #[trigger] read_records(fragmented(header, body, chunk))[i];
                r.header == header && 0 < r.body.len() <= chunk
            },
        joined_bodies(read_records(fragmented(header, body, chunk))) == body,
{
    pieces_cover_body(body, chunk);
    lemma_read_back(header, pieces(body, chunk));
}

/// Splits the body of a handshake record into pieces of at most `chunk_size`
/// bytes and wraps each piece in a record with the same header.
pub fn fragment_record(header: &[u8; 3], body: &[u8], chunk_size: usize) -> (out: Vec<u8>)
    requires
        chunk_size > 0,
        body@.len() <= MAX_BODY,
    ensures
        out@ == fragmented(header@, body@, chunk_size as nat),
{
    let total: usize = body.len();
    let mut out: Vec<u8> = Vec::new();
    let mut done: usize = 0;
    proof {
        assert(body@.skip(0) =~= body@);
        assert(out@ + fragmented(header@, body@, chunk_size as nat) =~= fragmented(
            header@,
            body@,
            chunk_size as nat,
        ));
    }
    while done < total
        invariant
            chunk_size > 0,
            total == body@.len(),
            total <= MAX_BODY,
            done <= total,
            out@ + fragmented(header@, body@.skip(done as int), chunk_size as nat) == fragmented(
                header@,
                body@,
                chunk_size as nat,
            ),
        decreases total - done,
    {
        let left: usize = total - done;
        let n: usize = if left < chunk_size {
            left
        } else {
            chunk_size
        };
        let ghost rest = body@.skip(done as int);
        let ghost before = out@;
        proof {
            lemma_fragmented_unfold(header@, rest, chunk_size as nat);
            assert(rest.skip(n as int) =~= body@.skip(done + n));
            assert(rest.take(n as int) =~= body@.subrange(done as int, done + n));
        }
        out.push(header[0]);
        out.push(header[1]);
        out.push(header[2]);
        out.push((n / 256) as u8);
        out.push((n % 256) as u8);
        let mut k: usize = 0;
        while k < n
            invariant
                k <= n,
                done + n <= total,
                total == body@.len(),
                out@ == before + header@ + length_bytes(n as nat) + body@.subrange(
                    done as int,
                    done + k,
                ),
            decreases n - k,
        {
            out.push(body[done + k]);
            k = k + 1;
            assert(body@.subrange(done as int, done + k) =~= body@.subrange(
                done as int,
                done + k - 1,
            ).push(body@[done + k - 1]));
        }
        assert(out@ =~= before + record(header@, rest.take(n as int)));
        assert(before + record(header@, rest.take(n as int)) + fragmented(
            header@,
            rest.skip(n as int),
            chunk_size as nat,
        ) =~= before + (record(header@, rest.take(n as int)) + fragmented(
            header@,
            rest.skip(n as int),
            chunk_size as nat,
        )));
        done = done + n;
    }
    proof {
        assert(body@.skip(done as int).len() == 0);
        assert(out@ + Seq::<u8>::empty() =~= out@);
    }
    out
}

} // verus!
