//! The transaction envelope: a deterministic, length-prefixed byte format for
//! a script invocation — declared signer count, code blob, argument list and
//! type-argument list — with a verified decoder and encoder.
//!
//! Layout: one byte of signer count; the code blob as a chunk; a four-byte
//! little-endian argument count followed by that many chunks; the same for
//! type arguments. A chunk is a four-byte little-endian length followed by
//! that many bytes. The envelope must be consumed exactly: trailing bytes are
//! a validation failure.

use vstd::prelude::*;
use crate::result::Error;

verus! {

/// The views of a list of byte vectors.
pub open spec fn views_of(l: Seq<Vec<u8>>) -> Seq<Seq<u8>> {
    Seq::new(l.len(), |i: int| l[i]@)
}

/// The four little-endian bytes of a 32-bit length.
pub open spec fn le4(n: u32) -> Seq<u8> {
    seq![
        (n & 0xff) as u8,
        ((n >> 8) & 0xff) as u8,
        ((n >> 16) & 0xff) as u8,
        ((n >> 24) & 0xff) as u8,
    ]
}

/// The 32-bit value of the first four bytes, little-endian. Meaningful only
/// when at least four bytes are present.
pub open spec fn le4_val(b: Seq<u8>) -> u32 {
    (b[0] as u32) | ((b[1] as u32) << 8) | ((b[2] as u32) << 16) | ((b[3] as u32) << 24)
}

pub proof fn lemma_le4_roundtrip(n: u32)
    ensures
        le4_val(le4(n)) == n,
{
    assert(((n & 0xff) as u8 as u32) | ((((n >> 8) & 0xff) as u8 as u32) << 8) | ((((n >> 16)
        & 0xff) as u8 as u32) << 16) | ((((n >> 24) & 0xff) as u8 as u32) << 24) == n)
        by (bit_vector);
}

/// A chunk is encodable when its length fits the four-byte prefix.
pub open spec fn chunk_valid(c: Seq<u8>) -> bool {
    c.len() < 0x1_0000_0000
}

/// A chunk: four length bytes, then the contents.
pub open spec fn chunk_enc(c: Seq<u8>) -> Seq<u8> {
    le4(c.len() as u32) + c
}

pub open spec fn chunks_valid(l: Seq<Seq<u8>>) -> bool {
    l.len() < 0x1_0000_0000 && (forall|i: int| 0 <= i < l.len() ==> chunk_valid(#[trigger] l[i]))
}

/// A list of chunks, one after the other.
pub open spec fn chunks_enc(l: Seq<Seq<u8>>) -> Seq<u8>
    decreases l.len(),
{
    if l.len() == 0 {
        Seq::empty()
    } else {
        chunk_enc(l[0]) + chunks_enc(l.drop_first())
    }
}

/// An envelope is encodable when every variable-length part fits its prefix.
pub open spec fn envelope_valid(code: Seq<u8>, args: Seq<Seq<u8>>, ty_args: Seq<Seq<u8>>) -> bool {
    chunk_valid(code) && chunks_valid(args) && chunks_valid(ty_args)
}

/// The canonical encoding of a script invocation envelope.
pub open spec fn envelope_enc(
    signers: u8,
    code: Seq<u8>,
    args: Seq<Seq<u8>>,
    ty_args: Seq<Seq<u8>>,
) -> Seq<u8> {
    seq![signers] + chunk_enc(code) + le4(args.len() as u32) + chunks_enc(args) + le4(
        ty_args.len() as u32,
    ) + chunks_enc(ty_args)
}

/// What one chunk at the head of the input denotes: its contents and the
/// remaining input, or nothing when the input is too short.
pub open spec fn parse_chunk(b: Seq<u8>) -> Option<(Seq<u8>, Seq<u8>)> {
    if b.len() < 4 {
        None
    } else {
        let n = le4_val(b) as int;
        if b.len() < 4 + n {
            None
        } else {
            Some((b.subrange(4, 4 + n), b.skip(4 + n)))
        }
    }
}

/// What `count` chunks at the head of the input denote.
pub open spec fn parse_chunks(b: Seq<u8>, count: nat) -> Option<(Seq<Seq<u8>>, Seq<u8>)>
    decreases count,
{
    if count == 0 {
        Some((Seq::empty(), b))
    } else {
        match parse_chunk(b) {
            None => None,
            Some((c, rest)) => match parse_chunks(rest, (count - 1) as nat) {
                None => None,
                Some((l, rest2)) => Some((seq![c] + l, rest2)),
            },
        }
    }
}

/// The grammar of the envelope: what a byte sequence denotes, or nothing when
/// it is not an envelope. The whole input must be consumed.
pub open spec fn parse_envelope(b: Seq<u8>) -> Option<(u8, Seq<u8>, Seq<Seq<u8>>, Seq<Seq<u8>>)> {
    if b.len() < 1 {
        None
    } else {
        match parse_chunk(b.skip(1)) {
            None => None,
            Some((code, r1)) => if r1.len() < 4 {
                None
            } else {
                match parse_chunks(r1.skip(4), le4_val(r1) as nat) {
                    None => None,
                    Some((args, r2)) => if r2.len() < 4 {
                        None
                    } else {
                        match parse_chunks(r2.skip(4), le4_val(r2) as nat) {
                            None => None,
                            Some((ty_args, r3)) => if r3.len() == 0 {
                                Some((b[0], code, args, ty_args))
                            } else {
                                None
                            },
                        }
                    },
                }
            },
        }
    }
}

/// A decoded script invocation: the declared signer count, the code blob, and
/// the argument and type-argument lists, all opaque to this layer.
#[derive(Clone, Debug, PartialEq, Eq)]
pub struct ScriptTransaction {
    pub signers_count: u8,
    pub code: Vec<u8>,
    pub args: Vec<Vec<u8>>,
    pub type_args: Vec<Vec<u8>>,
}

fn read_le4(bytes: &Vec<u8>, pos: usize) -> (n: u32)
    requires
        pos + 4 <= bytes@.len(),
    ensures
        n == le4_val(bytes@.skip(pos as int)),
{
    let _total: usize = bytes.len();
    let b0 = bytes[pos] as u32;
    let b1 = bytes[pos + 1] as u32;
    let b2 = bytes[pos + 2] as u32;
    let b3 = bytes[pos + 3] as u32;
    b0 | (b1 << 8) | (b2 << 16) | (b3 << 24)
}

pub(crate) fn copy_range(bytes: &Vec<u8>, start: usize, len: usize) -> (r: Vec<u8>)
    requires
        start + len <= bytes@.len(),
    ensures
        r@ == bytes@.subrange(start as int, start as int + len as int),
{
    let total: usize = bytes.len();
    let mut r: Vec<u8> = Vec::new();
    let mut i: usize = 0;
    while i < len
        invariant
            0 <= i <= len,
            total == bytes@.len(),
            start + len <= total,
            r@.len() == i,
            forall|j: int| 0 <= j < i ==> r@[j] == bytes@[start + j],
        decreases len - i,
    {
        r.push(bytes[start + i]);
        i = i + 1;
    }
    proof {
        assert(r@ =~= bytes@.subrange(start as int, start as int + len as int));
    }
    r
}

fn read_chunk(bytes: &Vec<u8>, pos: usize) -> (r: Result<(Vec<u8>, usize), Error>)
    requires
        pos <= bytes@.len(),
    ensures
        match r {
            Ok((c, p2)) => pos + 4 <= p2 <= bytes@.len() && parse_chunk(bytes@.skip(pos as int))
                == Some((c@, bytes@.skip(p2 as int))),
            Err(e) => e == Error::TransactionValidationError && parse_chunk(
                bytes@.skip(pos as int),
            ) is None,
        },
{
    let ghost s = bytes@.skip(pos as int);
    if bytes.len() - pos < 4 {
        return Err(Error::TransactionValidationError);
    }
    let n = read_le4(bytes, pos);
    if (bytes.len() - pos - 4) < n as usize {
        return Err(Error::TransactionValidationError);
    }
    let c = copy_range(bytes, pos + 4, n as usize);
    let p2: usize = pos + 4 + n as usize;
    proof {
        assert(c@ =~= s.subrange(4, 4 + n as int));
        assert(bytes@.skip(p2 as int) =~= s.skip(4 + n as int));
    }
    Ok((c, p2))
}

fn read_chunks(bytes: &Vec<u8>, pos: usize, count: u32) -> (r: Result<(Vec<Vec<u8>>, usize), Error>)
    requires
        pos <= bytes@.len(),
    ensures
        match r {
            Ok((l, p2)) => pos <= p2 <= bytes@.len() && parse_chunks(
                bytes@.skip(pos as int),
                count as nat,
            ) == Some((views_of(l@), bytes@.skip(p2 as int))),
            Err(e) => e == Error::TransactionValidationError && parse_chunks(
                bytes@.skip(pos as int),
                count as nat,
            ) is None,
        },
    decreases count,
{
    if count == 0 {
        let l: Vec<Vec<u8>> = Vec::new();
        proof {
            assert(views_of(l@) =~= Seq::<Seq<u8>>::empty());
        }
        return Ok((l, pos));
    }
    match read_chunk(bytes, pos) {
        Err(e) => Err(e),
        Ok((c, p1)) => match read_chunks(bytes, p1, count - 1) {
            Err(e) => Err(e),
            Ok((mut l, p2)) => {
                let ghost tail_views = views_of(l@);
                l.insert(0, c);
                proof {
                    assert(views_of(l@) =~= seq![c@] + tail_views);
                }
                Ok((l, p2))
            },
        },
    }
}

/// Decodes a transaction envelope. Succeeds exactly on the byte sequences the
/// envelope grammar admits, yielding exactly what the bytes denote; rejects
/// everything else as a transaction validation failure.
pub fn decode_transaction(bytes: &Vec<u8>) -> (r: Result<ScriptTransaction, Error>)
    ensures
        r matches Ok(t) ==> parse_envelope(bytes@) == Some(
            (t.signers_count, t.code@, views_of(t.args@), views_of(t.type_args@)),
        ),
        r is Err ==> r == Err::<ScriptTransaction, Error>(Error::TransactionValidationError)
            && parse_envelope(bytes@) is None,
{
    if bytes.len() < 1 {
        return Err(Error::TransactionValidationError);
    }
    let signers_count = bytes[0];
    let (code, p1) = match read_chunk(bytes, 1) {
        Err(e) => {
            return Err(e);
        },
        Ok(x) => x,
    };
    if bytes.len() - p1 < 4 {
        return Err(Error::TransactionValidationError);
    }
    let n_args = read_le4(bytes, p1);
    proof {
        assert(bytes@.skip(p1 as int).skip(4) =~= bytes@.skip(p1 + 4));
    }
    let (args, p2) = match read_chunks(bytes, p1 + 4, n_args) {
        Err(e) => {
            return Err(e);
        },
        Ok(x) => x,
    };
    if bytes.len() - p2 < 4 {
        return Err(Error::TransactionValidationError);
    }
    let n_ty = read_le4(bytes, p2);
    proof {
        assert(bytes@.skip(p2 as int).skip(4) =~= bytes@.skip(p2 + 4));
    }
    let (type_args, p3) = match read_chunks(bytes, p2 + 4, n_ty) {
        Err(e) => {
            return Err(e);
        },
        Ok(x) => x,
    };
    if p3 != bytes.len() {
        return Err(Error::TransactionValidationError);
    }
    Ok(ScriptTransaction { signers_count, code, args, type_args })
}

fn push_le4(out: &mut Vec<u8>, n: u32)
    ensures
        final(out)@ == old(out)@ + le4(n),
{
    out.push((n & 0xff) as u8);
    out.push(((n >> 8) & 0xff) as u8);
    out.push(((n >> 16) & 0xff) as u8);
    out.push(((n >> 24) & 0xff) as u8);
    proof {
        assert(out@ =~= old(out)@ + le4(n));
    }
}

fn push_bytes(out: &mut Vec<u8>, src: &Vec<u8>)
    ensures
        final(out)@ == old(out)@ + src@,
{
    let mut i: usize = 0;
    while i < src.len()
        invariant
            0 <= i <= src@.len(),
            out@ == old(out)@ + src@.take(i as int),
        decreases src@.len() - i,
    {
        proof {
            assert(old(out)@ + src@.take(i + 1) =~= (old(out)@ + src@.take(i as int)).push(
                src@[i as int],
            ));
        }
        out.push(src[i]);
        i = i + 1;
    }
    proof {
        assert(src@.take(src@.len() as int) =~= src@);
    }
}

/// Splitting a chunk list splits its encoding.
proof fn lemma_chunks_enc_app(a: Seq<Seq<u8>>, b: Seq<Seq<u8>>)
    ensures
        chunks_enc(a + b) == chunks_enc(a) + chunks_enc(b),
    decreases a.len(),
{
    if a.len() == 0 {
        assert(a + b =~= b);
        assert(Seq::<u8>::empty() + chunks_enc(b) =~= chunks_enc(b));
    } else {
        assert((a + b).drop_first() =~= a.drop_first() + b);
        assert((a + b)[0] == a[0]);
        lemma_chunks_enc_app(a.drop_first(), b);
        assert(chunk_enc(a[0]) + (chunks_enc(a.drop_first()) + chunks_enc(b)) =~= (chunk_enc(a[0])
            + chunks_enc(a.drop_first())) + chunks_enc(b));
    }
}

proof fn lemma_chunks_enc_snoc(l: Seq<Seq<u8>>, i: int)
    requires
        0 <= i < l.len(),
    ensures
        chunks_enc(l.take(i + 1)) == chunks_enc(l.take(i)) + chunk_enc(l[i]),
{
    assert(l.take(i + 1) =~= l.take(i) + seq![l[i]]);
    lemma_chunks_enc_app(l.take(i), seq![l[i]]);
    assert(seq![l[i]].drop_first() =~= Seq::<Seq<u8>>::empty());
    assert(chunks_enc(seq![l[i]].drop_first()) == Seq::<u8>::empty());
    assert(chunks_enc(seq![l[i]]) == chunk_enc(l[i]) + Seq::<u8>::empty());
    assert(chunk_enc(l[i]) + Seq::<u8>::empty() =~= chunk_enc(l[i]));
    assert(chunks_enc(l.take(i + 1)) == chunks_enc(l.take(i) + seq![l[i]]));
}

fn push_chunks(out: &mut Vec<u8>, items: &Vec<Vec<u8>>)
    requires
        chunks_valid(views_of(items@)),
    ensures
        final(out)@ == old(out)@ + le4(items@.len() as u32) + chunks_enc(views_of(items@)),
{
    let ghost l = views_of(items@);
    push_le4(out, items.len() as u32);
    let ghost base = out@;
    let mut i: usize = 0;
    while i < items.len()
        invariant
            0 <= i <= items@.len(),
            l == views_of(items@),
            chunks_valid(l),
            base == old(out)@ + le4(items@.len() as u32),
            out@ == base + chunks_enc(l.take(i as int)),
        decreases items@.len() - i,
    {
        assert(l[i as int] == items@[i as int]@);
        let ghost mid = out@;
        push_le4(out, items[i].len() as u32);
        push_bytes(out, &items[i]);
        proof {
            assert(out@ =~= mid + chunk_enc(l[i as int]));
            lemma_chunks_enc_snoc(l, i as int);
            assert(base + chunks_enc(l.take(i + 1)) =~= (base + chunks_enc(l.take(i as int)))
                + chunk_enc(l[i as int]));
        }
        i = i + 1;
    }
    proof {
        assert(l.take(l.len() as int) =~= l);
    }
}

/// Encodes a script invocation as its canonical envelope.
pub fn encode_transaction(t: &ScriptTransaction) -> (r: Vec<u8>)
    requires
        envelope_valid(t.code@, views_of(t.args@), views_of(t.type_args@)),
    ensures
        r@ == envelope_enc(t.signers_count, t.code@, views_of(t.args@), views_of(t.type_args@)),
{
    let mut out: Vec<u8> = Vec::new();
    out.push(t.signers_count);
    proof {
        assert(out@ =~= Seq::<u8>::empty().push(t.signers_count));
        assert(Seq::<u8>::empty().push(t.signers_count) =~= seq![t.signers_count]);
    }
    push_le4(&mut out, t.code.len() as u32);
    push_bytes(&mut out, &t.code);
    proof {
        assert(out@ =~= seq![t.signers_count] + chunk_enc(t.code@));
    }
    push_chunks(&mut out, &t.args);
    let ghost mid = out@;
    push_chunks(&mut out, &t.type_args);
    proof {
        assert(out@ =~= envelope_enc(
            t.signers_count,
            t.code@,
            views_of(t.args@),
            views_of(t.type_args@),
        ));
    }
    out
}

/// Law: a chunk encoding parses back to exactly its contents, whatever
/// follows it.
pub proof fn lemma_parse_chunk_enc(c: Seq<u8>, rest: Seq<u8>)
    requires
        chunk_valid(c),
    ensures
        parse_chunk(chunk_enc(c) + rest) == Some((c, rest)),
{
    let b = chunk_enc(c) + rest;
    assert(b[0] == le4(c.len() as u32)[0]);
    assert(b[1] == le4(c.len() as u32)[1]);
    assert(b[2] == le4(c.len() as u32)[2]);
    assert(b[3] == le4(c.len() as u32)[3]);
    lemma_le4_roundtrip(c.len() as u32);
    assert(le4_val(b) == c.len() as u32);
    assert(b.subrange(4, 4 + c.len() as int) =~= c);
    assert(b.skip(4 + c.len() as int) =~= rest);
}

/// Law: a chunk-list encoding parses back to exactly its items.
#[verifier::spinoff_prover]
#[verifier::rlimit(100)]
pub proof fn lemma_parse_chunks_enc(l: Seq<Seq<u8>>, rest: Seq<u8>)
    requires
        chunks_valid(l),
    ensures
        parse_chunks(chunks_enc(l) + rest, l.len() as nat) == Some((l, rest)),
    decreases l.len(),
{
    if l.len() == 0 {
        assert(chunks_enc(l) + rest =~= rest);
    } else {
        let c = l[0];
        let tail = l.drop_first();
        let b = chunks_enc(l) + rest;
        assert(chunks_enc(l) == chunk_enc(c) + chunks_enc(tail));
        assert(b =~= chunk_enc(c) + (chunks_enc(tail) + rest));
        lemma_parse_chunk_enc(c, chunks_enc(tail) + rest);
        assert(parse_chunk(b) == Some((c, chunks_enc(tail) + rest)));
        assert(chunks_valid(tail)) by {
            assert(forall|i: int| 0 <= i < tail.len() ==> tail[i] == l[i + 1]);
        }
        lemma_parse_chunks_enc(tail, rest);
        assert(parse_chunks(chunks_enc(tail) + rest, tail.len() as nat) == Some((tail, rest)));
        assert(parse_chunks(b, l.len() as nat) == Some((seq![c] + tail, rest)));
        assert(seq![c] + tail =~= l);
    }
}

/// Law: decoding is owed success on every canonical envelope, and yields
/// exactly the invocation that was encoded.
#[verifier::spinoff_prover]
#[verifier::rlimit(100)]
pub proof fn lemma_envelope_roundtrip(
    signers: u8,
    code: Seq<u8>,
    args: Seq<Seq<u8>>,
    ty_args: Seq<Seq<u8>>,
)
    requires
        envelope_valid(code, args, ty_args),
    ensures
        parse_envelope(envelope_enc(signers, code, args, ty_args)) == Some(
            (signers, code, args, ty_args),
        ),
{
    let b = envelope_enc(signers, code, args, ty_args);
    let r1 = le4(args.len() as u32) + chunks_enc(args) + le4(ty_args.len() as u32) + chunks_enc(
        ty_args,
    );
    let r2 = le4(ty_args.len() as u32) + chunks_enc(ty_args);
    assert(b[0] == signers);
    assert(b.skip(1) =~= chunk_enc(code) + r1);
    lemma_parse_chunk_enc(code, r1);
    assert(r1[0] == le4(args.len() as u32)[0]);
    assert(r1[1] == le4(args.len() as u32)[1]);
    assert(r1[2] == le4(args.len() as u32)[2]);
    assert(r1[3] == le4(args.len() as u32)[3]);
    lemma_le4_roundtrip(args.len() as u32);
    assert(le4_val(r1) == args.len() as u32);
    assert(r1.skip(4) =~= chunks_enc(args) + r2);
    lemma_parse_chunks_enc(args, r2);
    assert(r2[0] == le4(ty_args.len() as u32)[0]);
    assert(r2[1] == le4(ty_args.len() as u32)[1]);
    assert(r2[2] == le4(ty_args.len() as u32)[2]);
    assert(r2[3] == le4(ty_args.len() as u32)[3]);
    lemma_le4_roundtrip(ty_args.len() as u32);
    assert(le4_val(r2) == ty_args.len() as u32);
    assert(r2.skip(4) =~= chunks_enc(ty_args) + Seq::<u8>::empty());
    lemma_parse_chunks_enc(ty_args, Seq::empty());
}

} // verus!
