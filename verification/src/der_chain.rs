//! Certificate chains as the `os_rot` driver returns them: DER-encoded certificates, one
//! behind the other.

use vstd::prelude::*;
use x509_cert::der::{Error as DerError, Length, Reader, SliceReader};

verus! {

/// Why bytes are not DER, or not what they were read as; carried unread.
#[verifier::external_type_specification]
#[verifier::external_body]
pub struct ExDerError(DerError);

/// An X.509 certificate, as its DER encoding.
#[derive(Debug, PartialEq, Eq)]
pub struct Certificate {
    pub der: Vec<u8>,
}

impl View for Certificate {
    type V = Seq<u8>;

    open spec fn view(&self) -> Seq<u8> {
        self.der@
    }
}

impl Clone for Certificate {
    fn clone(&self) -> (res: Self)
        ensures
            res@ == self@,
    {
        Certificate { der: vstd::slice::slice_to_vec(self.der.as_slice()) }
    }
}

/// A chain of certificates.
pub type PkiPath = Vec<Certificate>;

/// The encodings of the certificates of a chain.
pub open spec fn encodings(certs: Seq<Certificate>) -> Seq<Seq<u8>> {
    Seq::new(certs.len(), |i: int| certs[i]@)
}

/// A result in which a chain is taken by the encodings of its certificates.
pub open spec fn encodings_of<E>(res: Result<PkiPath, E>) -> Result<Seq<Seq<u8>>, E> {
    match res {
        Ok(certs) => Ok(encodings(certs@)),
        Err(e) => Err(e),
    }
}

/// The length of the longest input that the DER reader takes.
pub const MAX_DER_INPUT: usize = 0xfff_ffff;

/// What the DER reader makes of `input` when it is to decode a certificate that starts at
/// `position`: the position behind the certificate, or the error.
pub uninterp spec fn certificate_end(input: Seq<u8>, position: nat) -> Result<nat, DerError>;

/// `der` is the encoding of a certificate: read from its start, it is one certificate and no
/// more.
pub open spec fn is_certificate(der: Seq<u8>) -> bool {
    &&& 0 < der.len() <= MAX_DER_INPUT
    &&& certificate_end(der, 0) == Ok::<nat, DerError>(der.len())
}

/// A result in which the position is taken as a number.
pub open spec fn position_of(res: Result<usize, DerError>) -> Result<nat, DerError> {
    match res {
        Ok(end) => Ok(end as nat),
        Err(e) => Err(e),
    }
}

/// Any bytes of `input` at `position` that are the encoding of a certificate end where
/// `outcome` says.
pub open spec fn is_only_end(
    input: Seq<u8>,
    position: int,
    outcome: Result<nat, DerError>,
) -> bool {
    forall|end: int|
        position <= end <= input.len() && #[trigger] is_certificate(input.subrange(position, end))
            ==> outcome == Ok::<nat, DerError>(end as nat)
}

/// Decodes the certificate that starts at `position` with `Reader::decode` of
/// `x509_cert::der`, on a `SliceReader` of `raw` that stands there, and tells where it ends.
///
/// The outcome depends on `raw` and `position` alone. A certificate is a header that gives
/// its length, and so many bytes behind it. So what is decoded is not empty, lies inside
/// `raw`, and is decoded the same when nothing stands around it; and where some bytes at
/// `position` are by themselves the encoding of a certificate, that one is decoded. The
/// reader refuses an input of more than [`MAX_DER_INPUT`] bytes.
#[verifier::external_body]
fn decode_certificate(raw: &[u8], position: usize) -> (res: Result<usize, DerError>)
    requires
        position <= raw@.len(),
    ensures
        position_of(res) == certificate_end(raw@, position as nat),
        raw@.len() > MAX_DER_INPUT ==> res is Err,
        res matches Ok(end) ==> position < end <= raw@.len(),
        res matches Ok(end) ==> is_certificate(raw@.subrange(position as int, end as int)),
        raw@.len() <= MAX_DER_INPUT ==> is_only_end(raw@, position as int, position_of(res)),
{
    let mut reader = SliceReader::new(raw)?;
    reader.read_slice(Length::try_from(position)?)?;
    reader.decode::<x509_cert::Certificate>()?;
    usize::try_from(reader.position())
}

/// `raw` is the chain of the certificates with the given encodings.
pub open spec fn is_chain(raw: Seq<u8>, ders: Seq<Seq<u8>>) -> bool {
    &&& raw == ders.flatten()
    &&& forall|i: int| 0 <= i < ders.len() ==> is_certificate(#[trigger] ders[i])
}

/// What is read of `input` from `position` on: the encodings of certificates up to its end, or
/// the first error.
///
/// A certificate always ends behind the position that it starts at, and inside `input`, as
/// [`decode_certificate`] states; the branch for one that does not is never come to, and only
/// makes the recursion well-founded.
pub open spec fn chain_from(input: Seq<u8>, position: nat) -> Result<Seq<Seq<u8>>, DerError>
    decreases input.len() - position,
{
    if position >= input.len() {
        Ok(Seq::empty())
    } else {
        match certificate_end(input, position) {
            Err(e) => Err(e),
            Ok(end) => if position < end <= input.len() {
                behind(
                    seq![input.subrange(position as int, end as int)],
                    chain_from(input, end),
                )
            } else {
                Ok(Seq::empty())
            },
        }
    }
}

/// The outcome of reading on behind `ders`.
pub open spec fn behind(
    ders: Seq<Seq<u8>>,
    rest: Result<Seq<Seq<u8>>, DerError>,
) -> Result<Seq<Seq<u8>>, DerError> {
    match rest {
        Ok(more) => Ok(ders + more),
        Err(e) => Err(e),
    }
}

/// The encoding of one certificate is a chain of that certificate.
pub proof fn law_certificate_is_chain(der: Seq<u8>)
    requires
        is_certificate(der),
    ensures
        is_chain(der, seq![der]),
{
    seq![der].lemma_flatten_singleton();
}

/// One chain behind the other is the chain of the certificates of both, in that order.
pub proof fn law_chains_concatenate(
    raw1: Seq<u8>,
    ders1: Seq<Seq<u8>>,
    raw2: Seq<u8>,
    ders2: Seq<Seq<u8>>,
)
    requires
        is_chain(raw1, ders1),
        is_chain(raw2, ders2),
    ensures
        is_chain(raw1 + raw2, ders1 + ders2),
{
    vstd::seq_lib::lemma_flatten_concat(ders1, ders2);
}

/// Every chain at the start of `raw` goes along with `ders`, as far as both go.
spec fn all_agree(raw: Seq<u8>, ders: Seq<Seq<u8>>) -> bool {
    forall|k: int, d: Seq<Seq<u8>>, i: int|
        #![trigger is_chain(raw.take(k), d), d[i]]
        0 <= k <= raw.len() && is_chain(raw.take(k), d) && 0 <= i < d.len() && i < ders.len()
            ==> d[i] == ders[i]
}

/// A piece of a flattened sequence stands behind those before it.
proof fn lemma_piece_place(ders: Seq<Seq<u8>>, n: int)
    requires
        0 <= n < ders.len(),
    ensures
        ({
            let start = ders.take(n).flatten().len();
            let end = start + ders[n].len();
            &&& end <= ders.flatten().len()
            &&& ders.flatten().subrange(start as int, end as int) == ders[n]
        }),
{
    let (before, after) = (ders.take(n), ders.skip(n + 1));
    assert(ders == before.push(ders[n]) + after);
    vstd::seq_lib::lemma_flatten_concat(before.push(ders[n]), after);
    before.lemma_flatten_push(ders[n]);
    let start = before.flatten().len() as int;
    assert(ders.flatten().subrange(start, start + ders[n].len()) == ders[n]);
}

/// Where a chain at the start of `raw` goes on behind `ders`, its next certificate starts at
/// the end of `ders`.
proof fn lemma_next_certificate(
    raw: Seq<u8>,
    ders: Seq<Seq<u8>>,
    position: int,
    k: int,
    d: Seq<Seq<u8>>,
)
    requires
        0 <= position <= raw.len(),
        is_chain(raw.take(position), ders),
        all_agree(raw, ders),
        0 <= k <= raw.len(),
        is_chain(raw.take(k), d),
        ders.len() < d.len(),
    ensures
        ({
            let next = d[ders.len() as int];
            let end = position + next.len();
            &&& position < end <= k
            &&& next == raw.subrange(position, end)
            &&& is_certificate(next)
        }),
{
    let n = ders.len() as int;
    assert(d.take(n) =~= ders) by {
        assert forall|i: int| 0 <= i < n implies d.take(n)[i] == ders[i] by {
            assert(d[i] == ders[i]);
        }
    }
    lemma_piece_place(d, n);
    assert(is_certificate(d[n]));
    let end = position + d[n].len();
    assert(raw.take(k).subrange(position, end) == raw.subrange(position, end));
}

/// A chain at the start of `raw` that has no more certificates than `ders` is made of the
/// first of them.
proof fn lemma_shorter_chain(raw: Seq<u8>, ders: Seq<Seq<u8>>, k: int, d: Seq<Seq<u8>>)
    requires
        forall|i: int| 0 <= i < ders.len() ==> is_certificate(#[trigger] ders[i]),
        all_agree(raw, ders),
        0 <= k <= raw.len(),
        is_chain(raw.take(k), d),
        d.len() <= ders.len(),
    ensures
        d == ders.take(d.len() as int),
        k <= ders.flatten().len(),
        d.len() == ders.len() <==> k == ders.flatten().len(),
{
    let n = d.len() as int;
    assert forall|i: int| 0 <= i < n implies d[i] == ders.take(n)[i] by {
        assert(d[i] == ders[i]);
    }
    assert(d =~= ders.take(n));
    assert(raw.take(k).len() == k);
    if n == ders.len() {
        assert(d =~= ders);
    } else {
        assert(is_certificate(ders[n]));
        lemma_piece_place(ders, n);
    }
}

/// Reading on behind no certificates is reading.
proof fn lemma_behind_nothing(rest: Result<Seq<Seq<u8>>, DerError>)
    ensures
        behind(Seq::empty(), rest) == rest,
{
    if let Ok(more) = rest {
        assert(Seq::<Seq<u8>>::empty() + more == more);
    }
}

/// Reading on behind one certificate, behind others, is reading on behind all of them.
proof fn lemma_behind_twice(
    ders: Seq<Seq<u8>>,
    der: Seq<u8>,
    rest: Result<Seq<Seq<u8>>, DerError>,
)
    ensures
        behind(ders, behind(seq![der], rest)) == behind(ders.push(der), rest),
{
    if let Ok(more) = rest {
        assert(ders + (seq![der] + more) == ders.push(der) + more);
    }
}

/// Takes up what decoding at `position` of `raw` came to: the certificate that ends at the
/// decoded position goes behind those in `certs`, and the next one starts there. An error is
/// handed on.
pub fn take_certificate(
    certs: &mut PkiPath,
    raw: &[u8],
    position: usize,
    decoded: Result<usize, DerError>,
) -> (res: Result<usize, DerError>)
    requires
        decoded matches Ok(end) ==> position <= end <= raw@.len(),
    ensures
        res == decoded,
        match decoded {
            Ok(end) => encodings(final(certs)@) == encodings(old(certs)@).push(
                raw@.subrange(position as int, end as int),
            ),
            Err(_) => final(certs)@ == old(certs)@,
        },
        decoded matches Ok(end) ==> {
            &&& final(certs)@.len() == old(certs)@.len() + 1
            &&& forall|i: int|
                0 <= i < old(certs)@.len() ==> #[trigger] final(certs)@[i] == old(certs)@[i]
            &&& final(certs)@.last().der@ == raw@.subrange(position as int, end as int)
        },
{
    let end = match decoded {
        Ok(end) => end,
        Err(e) => {
            return Err(e);
        },
    };
    let der = vstd::slice::slice_to_vec(vstd::slice::slice_subrange(raw, position, end));
    certs.push(Certificate { der });
    assert(encodings(certs@) =~= encodings(old(certs)@).push(der@));
    Ok(end)
}

/// Parse the certificate chain returned by the os_rot driver, which is a
/// concatenation of DER-encoded certificates.
///
/// Certificates are read from the start on until none of the bytes is left, or until one
/// cannot be read. It follows that a chain is read as the certificates that it is made of,
/// and that nothing else is read: bytes that are no chain give an error. A chain that was
/// cut off is an error too, unless the cut left whole certificates, which are then read.
pub fn load_der_chain(raw: &[u8]) -> (res: Result<PkiPath, DerError>)
    ensures
        encodings_of(res) == chain_from(raw@, 0),
        res is Ok <==> raw@.len() <= MAX_DER_INPUT && exists|ders: Seq<Seq<u8>>|
            is_chain(raw@, ders),
        res matches Ok(certs) ==> is_chain(raw@, encodings(certs@)),
        raw@.len() <= MAX_DER_INPUT ==> forall|ders: Seq<Seq<u8>>| #[trigger]
            is_chain(raw@, ders) ==> encodings_of(res) == Ok::<Seq<Seq<u8>>, DerError>(ders),
        res matches Ok(certs) ==> forall|k: int, cut: Seq<Seq<u8>>|
            0 <= k < raw@.len() && #[trigger] is_chain(raw@.take(k), cut) ==> cut.len()
                < certs@.len() && cut == encodings(certs@).take(cut.len() as int),
        res matches Err(e) ==> exists|k: int, read: Seq<Seq<u8>>|
            0 <= k < raw@.len() && #[trigger] is_chain(raw@.take(k), read) && certificate_end(
                raw@,
                k as nat,
            ) == Err::<nat, DerError>(e),
{
    let mut certs: PkiPath = Vec::new();
    let mut position: usize = 0;
    let ghost mut ders: Seq<Seq<u8>> = Seq::empty();
    assert(raw@.take(0) =~= ders.flatten());
    assert(raw@.take(raw@.len() as int) == raw@);
    assert(encodings(certs@) =~= ders);
    proof {
        lemma_behind_nothing(chain_from(raw@, 0));
    }
    while position < raw.len()
        invariant
            position <= raw@.len(),
            position > 0 ==> raw@.len() <= MAX_DER_INPUT,
            raw@.take(raw@.len() as int) == raw@,
            encodings(certs@) == ders,
            is_chain(raw@.take(position as int), ders),
            all_agree(raw@, ders),
            chain_from(raw@, 0) == behind(ders, chain_from(raw@, position as nat)),
        decreases raw@.len() - position,
    {
        let ghost before = ders;
        let decoded = decode_certificate(raw, position);
        match take_certificate(&mut certs, raw, position, decoded) {
            Ok(end) => {
                proof {
                    let der = raw@.subrange(position as int, end as int);
                    ders = before.push(der);
                    before.lemma_flatten_push(der);
                    assert(raw@.take(end as int) == raw@.take(position as int) + der);
                    assert forall|k: int, d: Seq<Seq<u8>>, i: int|
                        #![trigger is_chain(raw@.take(k), d), d[i]]
                        0 <= k <= raw@.len() && is_chain(raw@.take(k), d) && 0 <= i < d.len() && i
                            < ders.len() implies d[i] == ders[i] by {
                        if i == before.len() {
                            lemma_next_certificate(raw@, before, position as int, k, d);
                        }
                    }
                    lemma_behind_twice(before, der, chain_from(raw@, end as nat));
                }
                position = end;
            },
            Err(e) => {
                proof {
                    assert forall|d: Seq<Seq<u8>>|
                        raw@.len() <= MAX_DER_INPUT implies !is_chain(raw@, d) by {
                        if is_chain(raw@, d) {
                            let k = raw@.len() as int;
                            if before.len() < d.len() {
                                lemma_next_certificate(raw@, before, position as int, k, d);
                            } else {
                                lemma_shorter_chain(raw@, before, k, d);
                            }
                        }
                    }
                }
                assert(is_chain(raw@.take(position as int), before) && certificate_end(
                    raw@,
                    position as nat,
                ) == Err::<nat, DerError>(e));
                return Err(e);
            },
        }
    }
    proof {
        assert(ders + Seq::<Seq<u8>>::empty() == ders);
        assert forall|k: int, d: Seq<Seq<u8>>|
            0 <= k <= raw@.len() && #[trigger] is_chain(raw@.take(k), d) implies d.len()
            <= ders.len() && d == ders.take(d.len() as int) && (k < raw@.len() ==> d.len()
            < ders.len()) && (k == raw@.len() ==> d == ders) by {
            if ders.len() < d.len() {
                lemma_next_certificate(raw@, ders, position as int, k, d);
            } else {
                lemma_shorter_chain(raw@, ders, k, d);
            }
        }
    }
    Ok(certs)
}

/// Certificates whose encodings make the chain `raw` are each one certificate, and stand in
/// `raw` one behind the other.
pub proof fn lemma_encodings(certs: Seq<Certificate>, raw: Seq<u8>)
    requires
        is_chain(raw, encodings(certs)),
    ensures
        Seq::new(certs.len(), |i: int| certs[i].der@).flatten() == raw,
        forall|i: int|
            0 <= i < certs.len() ==> 0 < (#[trigger] certs[i]).der@.len() <= 0xfff_ffff
                && certificate_end(certs[i].der@, 0) == Ok::<nat, DerError>(certs[i].der@.len()),
{
    assert(encodings(certs) =~= Seq::new(certs.len(), |i: int| certs[i].der@));
    assert forall|i: int| 0 <= i < certs.len() implies 0 < (#[trigger] certs[i]).der@.len()
        <= 0xfff_ffff && certificate_end(certs[i].der@, 0) == Ok::<nat, DerError>(
        certs[i].der@.len(),
    ) by {
        assert(is_certificate(encodings(certs)[i]));
    }
}

/// What is read of a chain is, one encoding behind the other, the bytes of the chain: none is
/// lost, added or moved. Each is one certificate that is decoded by itself. An error is one that
/// decoding gave right behind certificates that were read before it.
pub proof fn law_chain_is_read_whole(raw: &[u8], res: Result<PkiPath, DerError>)
    requires
        call_ensures(load_der_chain, (raw,), res),
    ensures
        match res {
            Ok(certs) => {
                &&& Seq::new(certs@.len(), |i: int| certs@[i].der@).flatten() == raw@
                &&& forall|i: int|
                    0 <= i < certs@.len() ==> 0 < (#[trigger] certs@[i]).der@.len() <= 0xfff_ffff
                        && certificate_end(certs@[i].der@, 0) == Ok::<nat, DerError>(
                        certs@[i].der@.len(),
                    )
            },
            Err(e) => exists|k: nat, read: Seq<Seq<u8>>| #[trigger]
                read_before(raw@, k, read) && certificate_end(raw@, k) == Err::<nat, DerError>(e),
        },
        raw@.len() == 0 ==> (res matches Ok(certs) && certs@.len() == 0),
        raw@.len() > 0xfff_ffff ==> res is Err,
{
    match res {
        Ok(certs) => {
            lemma_encodings(certs@, raw@);
        },
        Err(e) => {
            let (k, read) = choose|k: int, read: Seq<Seq<u8>>|
                0 <= k < raw@.len() && #[trigger] is_chain(raw@.take(k), read) && certificate_end(
                    raw@,
                    k as nat,
                ) == Err::<nat, DerError>(e);
            assert(read_before(raw@, k as nat, read));
        },
    }
    if raw@.len() == 0 {
        assert(chain_from(raw@, 0) == Ok::<Seq<Seq<u8>>, DerError>(Seq::empty()));
    }
}

/// The first `k` bytes of `raw`, which has more, are the certificates with the encodings `read`.
pub open spec fn read_before(raw: Seq<u8>, k: nat, read: Seq<Seq<u8>>) -> bool {
    &&& k < raw.len()
    &&& read.flatten() == raw.take(k as int)
    &&& forall|i: int|
        0 <= i < read.len() ==> certificate_end(#[trigger] read[i], 0) == Ok::<nat, DerError>(
            read[i].len(),
        )
}

/// Certificates, one behind the other, are a chain of them.
pub proof fn lemma_concatenation_is_chain(ders: Seq<Seq<u8>>, raw: Seq<u8>)
    requires
        raw == ders.flatten(),
        raw.len() <= 0xfff_ffff,
        forall|i: int|
            0 <= i < ders.len() ==> (#[trigger] ders[i]).len() > 0 && certificate_end(ders[i], 0)
                == Ok::<nat, DerError>(ders[i].len()),
    ensures
        is_chain(raw, ders),
{
    assert forall|i: int| 0 <= i < ders.len() implies is_certificate(#[trigger] ders[i]) by {
        lemma_piece_place(ders, i);
    }
}

/// One certificate behind another, in whatever number, is read as just those certificates.
pub proof fn law_concatenation_is_read_back(
    ders: Seq<Seq<u8>>,
    raw: &[u8],
    res: Result<PkiPath, DerError>,
)
    requires
        raw@ == ders.flatten(),
        raw@.len() <= 0xfff_ffff,
        forall|i: int|
            0 <= i < ders.len() ==> (#[trigger] ders[i]).len() > 0 && certificate_end(ders[i], 0)
                == Ok::<nat, DerError>(ders[i].len()),
        call_ensures(load_der_chain, (raw,), res),
    ensures
        res matches Ok(certs) && certs@.len() == ders.len() && forall|i: int|
            0 <= i < ders.len() ==> (#[trigger] certs@[i]).der@ == ders[i],
{
    lemma_concatenation_is_chain(ders, raw@);
    if let Ok(certs) = res {
        assert forall|i: int| 0 <= i < ders.len() implies (#[trigger] certs@[i]).der@
            == ders[i] by {
            assert(encodings(certs@)[i] == ders[i]);
        }
    }
}

/// The bytes of a certificate are its encoding.
pub proof fn law_certificate_bytes(certificate: Certificate)
    ensures
        certificate@ == certificate.der@,
{
}

} // verus!
