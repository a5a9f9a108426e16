//! PEM documents with a chain of certificates, one block behind the other.

use vstd::prelude::*;
use x509_cert::der::pem::Error as PemError;
use x509_cert::der::{DecodePem, Encode, Error as DerError};

use crate::der_chain::{Certificate, PkiPath};

verus! {

/// Why text is not a PEM block, carried unread.
#[verifier::external_type_specification]
#[verifier::external_body]
pub struct ExPemError(PemError);

/// The label of a block that holds a certificate.
pub const CERTIFICATE_LABEL: &'static str = "CERTIFICATE";

/// The end of a block that holds a certificate.
pub const CERTIFICATE_END: &'static str = "-----END CERTIFICATE-----";

/// The byte is an end of line, or a part of one.
pub open spec fn is_eol(byte: u8) -> bool {
    byte == 0x0d || byte == 0x0a
}

/// There is nothing in the document but ends of lines.
pub open spec fn is_blank(pem: Seq<u8>) -> bool {
    forall|i: int| 0 <= i < pem.len() ==> is_eol(#[trigger] pem[i])
}

/// The document without the ends of lines at its end.
pub open spec fn trimmed(pem: Seq<u8>) -> Seq<u8>
    decreases pem.len(),
{
    if pem.len() > 0 && is_eol(pem.last()) {
        trimmed(pem.drop_last())
    } else {
        pem
    }
}

/// The bytes of [`CERTIFICATE_END`].
pub open spec fn end_boundary() -> Seq<u8> {
    vstd::utf8::encode_utf8(CERTIFICATE_END@)
}

/// Where the first block ends whose [`CERTIFICATE_END`] starts at `from` or behind it.
pub open spec fn block_end(pem: Seq<u8>, from: nat) -> Option<nat>
    decreases pem.len() - from,
{
    let end = from + end_boundary().len();
    if end > pem.len() {
        None
    } else if pem.subrange(from as int, end as int) == end_boundary() {
        Some(end)
    } else if from < pem.len() {
        block_end(pem, from + 1)
    } else {
        None
    }
}

/// The byte is one of the tags that the DER reader knows.
pub open spec fn is_tag(byte: u8) -> bool {
    ||| 0x01 <= byte <= 0x06
    ||| byte == 0x09
    ||| byte == 0x0a
    ||| byte == 0x0c
    ||| 0x12 <= byte <= 0x18
    ||| byte == 0x1a
    ||| byte == 0x1e
    ||| byte == 0x30
    ||| byte == 0x31
    ||| 0x40 <= byte && byte % 0x20 != 0x1f
}

/// The bytes end inside their DER header, before the length that it gives is complete: there
/// is no more than a tag, or the length takes more bytes than there are.
pub open spec fn header_is_cut(der: Seq<u8>) -> bool {
    ||| der.len() == 0
    ||| is_tag(der[0]) && der.len() == 1
    ||| is_tag(der[0]) && 0x81 <= der[1] <= 0x84 && der.len() - 2 < der[1] - 0x80
}

/// The label and the decoded bytes of a PEM block, or why it has none.
pub uninterp spec fn pem_block(block: Seq<u8>) -> Result<(Seq<char>, Seq<u8>), PemError>;

/// A result in which label and bytes are taken by their views.
pub open spec fn block_of(res: Result<(String, Vec<u8>), PemError>) -> Result<
    (Seq<char>, Seq<u8>),
    PemError,
> {
    match res {
        Ok((label, der)) => Ok((label@, der@)),
        Err(e) => Err(e),
    }
}

/// The label and the decoded bytes of a PEM block, as `x509_cert::der::pem::decode_vec` finds
/// them. They depend on the block alone.
#[verifier::external_body]
fn decode_pem_block(block: &[u8]) -> (res: Result<(String, Vec<u8>), PemError>)
    ensures
        block_of(res) == pem_block(block@),
{
    let (label, der) = x509_cert::der::pem::decode_vec(block)?;
    Ok((label.to_string(), der))
}

/// The block is one that the reader of PEM certificates does not come back from: it is
/// labelled a certificate, and its bytes end inside their header. The reader waits for the
/// rest of the header.
pub open spec fn block_stalls(block: Seq<u8>) -> bool {
    pem_block(block) matches Ok((label, der)) && label == CERTIFICATE_LABEL@ && header_is_cut(der)
}

/// What comes of decoding a PEM block as a certificate.
pub uninterp spec fn pem_certificate(block: Seq<u8>) -> Result<(), DerError>;

/// Decodes a PEM block with `DecodePem::from_pem` of `x509_cert::Certificate`, and tells
/// whether it is a certificate. The outcome depends on the block alone. A block that ends
/// inside the DER header of the certificate is left out: on it that function does not return.
#[verifier::external_body]
fn decode_pem_certificate(block: &[u8]) -> (res: Result<(), DerError>)
    requires
        !block_stalls(block@),
    ensures
        res == pem_certificate(block@),
{
    x509_cert::Certificate::from_pem(block)?;
    Ok(())
}

/// The reader of PEM certificates, on its way through the document from `position` on, comes
/// to a block that it does not come back from. It stops at the first block that is no
/// certificate, and where there is no further block.
pub open spec fn stalls_from(pem: Seq<u8>, position: nat) -> bool
    decreases pem.len() - position,
{
    if position + 1 >= pem.len() {
        false
    } else {
        match block_end(pem, position) {
            None => false,
            Some(end) => {
                let block = pem.subrange(position as int, end as int);
                &&& position < end <= pem.len()
                &&& block_stalls(block) || (pem_certificate(block) is Ok && stalls_from(pem, end))
            },
        }
    }
}

/// The reader of PEM certificates does not come back from the document.
pub open spec fn stalls(pem: Seq<u8>) -> bool {
    stalls_from(trimmed(pem), 0)
}

/// The document is one that the reader of PEM certificates gives an answer to.
pub open spec fn is_answered(pem: Seq<u8>) -> bool {
    !is_blank(pem) && !stalls(pem)
}

/// The encodings of the certificates in a PEM document, or why it has none.
pub uninterp spec fn pem_chain(pem: Seq<u8>) -> Result<Seq<Seq<u8>>, DerError>;

/// The certificates in a PEM document, as `x509_cert::Certificate::load_pem_chain` finds
/// them, each by the encoding that `Encode::to_der` gives it. They depend on the document
/// alone. Two kinds of documents are left out. On one of nothing but ends of lines that
/// function underflows. On one in which it comes to a block that ends inside the DER header
/// of its certificate it does not return, which [`stalls`] states.
#[verifier::external_body]
pub(crate) fn load_pem_chain(pem: &[u8]) -> (res: Result<PkiPath, DerError>)
    requires
        is_answered(pem@),
    ensures
        crate::der_chain::encodings_of(res) == pem_chain(pem@),
{
    let certs = x509_cert::Certificate::load_pem_chain(pem)?;
    certs.iter().map(|cert| Ok(Certificate { der: cert.to_der()? })).collect()
}

/// Tells whether there is nothing in the document but ends of lines.
pub fn blank(pem: &[u8]) -> (res: bool)
    ensures
        res == is_blank(pem@),
{
    let mut i: usize = 0;
    while i < pem.len()
        invariant
            i <= pem@.len(),
            forall|j: int| 0 <= j < i ==> is_eol(#[trigger] pem@[j]),
        decreases pem@.len() - i,
    {
        if pem[i] != 0x0d && pem[i] != 0x0a {
            assert(!is_eol(pem@[i as int]));
            return false;
        }
        i = i + 1;
    }
    true
}

/// The length of the document without the ends of lines at its end.
fn trimmed_len(pem: &[u8]) -> (res: usize)
    ensures
        res <= pem@.len(),
        pem@.take(res as int) == trimmed(pem@),
{
    let mut len: usize = pem.len();
    assert(pem@.take(len as int) == pem@);
    while len > 0 && (pem[len - 1] == 0x0d || pem[len - 1] == 0x0a)
        invariant
            len <= pem@.len(),
            trimmed(pem@.take(len as int)) == trimmed(pem@),
        decreases len,
    {
        assert(pem@.take(len as int).drop_last() == pem@.take(len - 1));
        len = len - 1;
    }
    len
}

/// Tells whether `needle` stands in `text` at `from`.
fn stands_at(text: &[u8], from: usize, needle: &[u8]) -> (res: bool)
    requires
        from + needle@.len() <= text@.len(),
    ensures
        res == (text@.subrange(from as int, from + needle@.len()) == needle@),
{
    let len = text.len();
    let mut i: usize = 0;
    while i < needle.len()
        invariant
            i <= needle@.len(),
            from + needle@.len() <= len == text@.len(),
            forall|j: int| 0 <= j < i ==> text@[from + j] == #[trigger] needle@[j],
        decreases needle@.len() - i,
    {
        if text[from + i] != needle[i] {
            assert(text@.subrange(from as int, from + needle@.len())[i as int] != needle@[i as int]);
            return false;
        }
        i = i + 1;
    }
    assert(text@.subrange(from as int, from + needle@.len()) =~= needle@);
    true
}

/// Where the first block ends whose [`CERTIFICATE_END`] starts at `from` or behind it.
fn find_block_end(pem: &[u8], from: usize) -> (res: Option<usize>)
    requires
        from <= pem@.len(),
    ensures
        match res {
            Some(end) => block_end(pem@, from as nat) == Some(end as nat) && from < end
                <= pem@.len(),
            None => block_end(pem@, from as nat) is None,
        },
{
    let boundary = CERTIFICATE_END.as_bytes();
    proof {
        reveal_strlit("-----END CERTIFICATE-----");
        vstd::utf8::is_ascii_chars_encode_utf8(CERTIFICATE_END@);
    }
    let mut at: usize = from;
    while boundary.len() <= pem.len() - at
        invariant
            from <= at <= pem@.len(),
            boundary@ == end_boundary(),
            boundary@.len() > 0,
            block_end(pem@, from as nat) == block_end(pem@, at as nat),
        decreases pem@.len() - at,
    {
        if stands_at(pem, at, boundary) {
            return Some(at + boundary.len());
        }
        at = at + 1;
    }
    None
}

/// Tells whether the byte is one of the tags that the DER reader knows.
fn known_tag(byte: u8) -> (res: bool)
    ensures
        res == is_tag(byte),
{
    (0x01 <= byte && byte <= 0x06) || byte == 0x09 || byte == 0x0a || byte == 0x0c || (0x12 <= byte
        && byte <= 0x18) || byte == 0x1a || byte == 0x1e || byte == 0x30 || byte == 0x31 || (0x40
        <= byte && byte % 0x20 != 0x1f)
}

/// Tells whether the bytes end inside their DER header.
pub fn cut_in_header(der: &[u8]) -> (res: bool)
    ensures
        res == header_is_cut(der@),
{
    if der.len() == 0 {
        return true;
    }
    if !known_tag(der[0]) {
        return false;
    }
    der.len() == 1 || (0x81 <= der[1] && der[1] <= 0x84 && der.len() - 2 < (der[1] - 0x80) as usize)
}

/// Tells whether the reader of PEM certificates does not come back from the document.
pub fn stalling(pem: &[u8]) -> (res: bool)
    ensures
        res == stalls(pem@),
{
    let len = trimmed_len(pem);
    let text = vstd::slice::slice_subrange(pem, 0, len);
    assert(text@ == trimmed(pem@));
    let certificate = CERTIFICATE_LABEL.to_owned();
    let mut position: usize = 0;
    while text.len() - position > 1
        invariant
            position <= text@.len(),
            text@ == trimmed(pem@),
            certificate@ == CERTIFICATE_LABEL@,
            stalls_from(text@, 0) == stalls_from(text@, position as nat),
        decreases text@.len() - position,
    {
        let end = match find_block_end(text, position) {
            Some(end) => end,
            None => {
                return false;
            },
        };
        let block = vstd::slice::slice_subrange(text, position, end);
        match decode_pem_block(block) {
            Ok((label, der)) => if label == certificate && cut_in_header(der.as_slice()) {
                return true;
            },
            Err(_) => {},
        }
        match decode_pem_certificate(block) {
            Ok(_) => {},
            Err(_) => {
                return false;
            },
        }
        position = end;
    }
    false
}

/// Tells whether the reader of PEM certificates gives an answer to the document.
pub fn answered(pem: &[u8]) -> (res: bool)
    ensures
        res == is_answered(pem@),
{
    !blank(pem) && !stalling(pem)
}

/// What is cut off a document to trim it is ends of lines, and all of those at its end.
pub proof fn law_trimmed(pem: Seq<u8>)
    ensures
        trimmed(pem).len() <= pem.len(),
        trimmed(pem) == pem.take(trimmed(pem).len() as int),
        forall|i: int|
            trimmed(pem).len() <= i < pem.len() ==> #[trigger] pem[i] == 0x0d || pem[i] == 0x0a,
        trimmed(pem).len() > 0 ==> trimmed(pem).last() != 0x0d && trimmed(pem).last() != 0x0a,
    decreases pem.len(),
{
    if pem.len() > 0 && is_eol(pem.last()) {
        law_trimmed(pem.drop_last());
        assert forall|i: int| trimmed(pem).len() <= i < pem.len() implies #[trigger] pem[i] == 0x0d
            || pem[i] == 0x0a by {
            if i < pem.len() - 1 {
                assert(pem.drop_last()[i] == pem[i]);
            }
        }
        assert(trimmed(pem) =~= pem.take(trimmed(pem).len() as int));
    } else {
        assert(trimmed(pem) =~= pem.take(trimmed(pem).len() as int));
    }
}

/// The bytes that end a block.
pub proof fn law_end_boundary()
    ensures
        end_boundary() == seq![
            0x2du8, 0x2d, 0x2d, 0x2d, 0x2d, 0x45, 0x4e, 0x44, 0x20, 0x43, 0x45, 0x52, 0x54, 0x49,
            0x46, 0x49, 0x43, 0x41, 0x54, 0x45, 0x2d, 0x2d, 0x2d, 0x2d, 0x2d,
        ],
{
    reveal_strlit("-----END CERTIFICATE-----");
    vstd::utf8::is_ascii_chars_encode_utf8(CERTIFICATE_END@);
    assert(end_boundary() =~= seq![
        0x2du8, 0x2d, 0x2d, 0x2d, 0x2d, 0x45, 0x4e, 0x44, 0x20, 0x43, 0x45, 0x52, 0x54, 0x49, 0x46,
        0x49, 0x43, 0x41, 0x54, 0x45, 0x2d, 0x2d, 0x2d, 0x2d, 0x2d,
    ]);
}

/// The bytes that end a block stand in the document at `at`.
pub open spec fn boundary_at(pem: Seq<u8>, at: int) -> bool {
    0 <= at && at + 25 <= pem.len() && pem.subrange(at, at + 25) == end_boundary()
}

/// A block ends behind the first boundary that there is from the given place on, and has no end
/// only where there is no such boundary.
pub proof fn law_block_end_is_first(pem: Seq<u8>, from: nat)
    ensures
        match block_end(pem, from) {
            Some(end) => {
                &&& from + 25 <= end
                &&& boundary_at(pem, end - 25)
                &&& forall|at: int| from <= at < end - 25 ==> !#[trigger] boundary_at(pem, at)
            },
            None => forall|at: int| from <= at ==> !#[trigger] boundary_at(pem, at),
        },
    decreases pem.len() - from,
{
    law_end_boundary();
    assert(end_boundary().len() == 25);
    if from + 25 <= pem.len() && pem.subrange(from as int, from + 25int) != end_boundary() {
        law_block_end_is_first(pem, from + 1);
        assert(!boundary_at(pem, from as int));
    }
}

/// A document is blank exactly if it holds no byte but carriage returns and line feeds.
pub proof fn law_blank(pem: &[u8], res: bool)
    requires
        call_ensures(blank, (pem,), res),
    ensures
        res == is_blank(pem@),
        res ==> forall|i: int| 0 <= i < pem@.len() ==> #[trigger] pem@[i] == 13 || pem@[i] == 10,
        !res ==> exists|i: int| 0 <= i < pem@.len() && #[trigger] pem@[i] != 13 && pem@[i] != 10,
{
    if res {
        assert forall|i: int| 0 <= i < pem@.len() implies #[trigger] pem@[i] == 13 || pem@[i]
            == 10 by {
            assert(is_eol(pem@[i]));
        }
    }
}

/// Which bytes end inside their header: none, a single tag, and a tag with a length that takes
/// more bytes than there are. A length below 0x80 takes one byte, one that starts with 0x81 to
/// 0x84 takes one to four more, and anything else is refused at once, as is an unknown tag.
pub proof fn law_cut_headers(der: &[u8], res: bool)
    requires
        call_ensures(cut_in_header, (der,), res),
    ensures
        res == header_is_cut(der@),
        der@.len() == 0 ==> res,
        der@.len() >= 6 ==> !res,
        der@.len() > 0 && !is_tag(der@[0]) ==> !res,
        der@.len() == 1 && is_tag(der@[0]) ==> res,
        der@.len() >= 2 && (der@[1] <= 0x80 || der@[1] >= 0x85) ==> !res,
        der@.len() >= 2 && is_tag(der@[0]) && der@[1] == 0x81 ==> (res <==> der@.len() < 3),
        der@.len() >= 2 && is_tag(der@[0]) && der@[1] == 0x82 ==> (res <==> der@.len() < 4),
        der@.len() >= 2 && is_tag(der@[0]) && der@[1] == 0x83 ==> (res <==> der@.len() < 5),
        der@.len() >= 2 && is_tag(der@[0]) && der@[1] == 0x84 ==> (res <==> der@.len() < 6),
{
}

/// Of the tags that are not universal every one of a number below 31 is known. Of the universal
/// ones the strings, times and numbers are, as primitives, and sequences and sets as constructed.
pub proof fn law_known_tags(byte: u8)
    ensures
        byte >= 0x40 ==> (is_tag(byte) <==> byte % 0x20 < 0x1f),
        0x20 <= byte < 0x40 ==> (is_tag(byte) <==> byte == 0x30 || byte == 0x31),
        byte < 0x20 ==> (!is_tag(byte) <==> set![
            0x00u8, 0x07, 0x08, 0x0b, 0x0d, 0x0e, 0x0f, 0x10, 0x11, 0x19, 0x1b, 0x1c, 0x1d, 0x1f,
        ].contains(byte)),
{
}

/// Where the block of the given number starts, if reading starts at `position` and the blocks end
/// at `ends`.
pub open spec fn block_start(position: nat, ends: Seq<nat>, i: int) -> nat {
    if i == 0 {
        position
    } else {
        ends[i - 1]
    }
}

/// The reader of PEM certificates comes to the block of the given number, which is a certificate,
/// or the last one and one that it does not come back from.
pub open spec fn is_way_over(pem: Seq<u8>, position: nat, ends: Seq<nat>, i: int) -> bool {
    let start = block_start(position, ends, i);
    let block = pem.subrange(start as int, ends[i] as int);
    &&& start + 1 < pem.len()
    &&& block_end(pem, start) == Some(ends[i])
    &&& if i < ends.len() - 1 {
        pem_certificate(block) is Ok
    } else {
        block_stalls(block)
    }
}

/// The reader of PEM certificates reads blocks that end at `ends`, from `position` on, and the
/// last of them is one that it does not come back from: all others are certificates.
pub open spec fn is_way_to_stall(pem: Seq<u8>, position: nat, ends: Seq<nat>) -> bool {
    &&& ends.len() > 0
    &&& forall|i: int| 0 <= i < ends.len() ==> #[trigger] is_way_over(pem, position, ends, i)
}

/// Where the reader of PEM certificates does not come back, there is a way to the block.
proof fn lemma_stall_has_way(pem: Seq<u8>, position: nat) -> (ends: Seq<nat>)
    requires
        stalls_from(pem, position),
    ensures
        is_way_to_stall(pem, position, ends),
    decreases pem.len() - position,
{
    let end = block_end(pem, position)->Some_0;
    if block_stalls(pem.subrange(position as int, end as int)) {
        let ends = seq![end];
        assert(is_way_over(pem, position, ends, 0));
        ends
    } else {
        let rest = lemma_stall_has_way(pem, end);
        let ends = seq![end] + rest;
        assert forall|i: int| 0 <= i < ends.len() implies #[trigger] is_way_over(
            pem,
            position,
            ends,
            i,
        ) by {
            if i > 0 {
                assert(is_way_over(pem, end, rest, i - 1));
                assert(block_start(position, ends, i) == block_start(end, rest, i - 1));
            }
        }
        ends
    }
}

/// Where there is a way to a block that the reader of PEM certificates does not come back from,
/// it does not come back.
proof fn lemma_way_stalls(pem: Seq<u8>, position: nat, ends: Seq<nat>)
    requires
        is_way_to_stall(pem, position, ends),
    ensures
        stalls_from(pem, position),
    decreases ends.len(),
{
    assert(is_way_over(pem, position, ends, 0));
    law_block_end_is_first(pem, position);
    if ends.len() > 1 {
        let rest = ends.drop_first();
        assert forall|i: int| 0 <= i < rest.len() implies #[trigger] is_way_over(
            pem,
            ends[0],
            rest,
            i,
        ) by {
            assert(is_way_over(pem, position, ends, i + 1));
            assert(block_start(position, ends, i + 1) == block_start(ends[0], rest, i));
        }
        lemma_way_stalls(pem, ends[0], rest);
    }
}

/// A document is one that its reader does not come back from exactly if some number of blocks
/// that are certificates is followed by one that is labelled a certificate and whose bytes end
/// inside their header.
pub proof fn law_stalling_documents(pem: &[u8], res: bool)
    requires
        call_ensures(stalling, (pem,), res),
    ensures
        res == stalls(pem@),
        res <==> exists|ends: Seq<nat>| is_way_to_stall(trimmed(pem@), 0, ends),
{
    let text = trimmed(pem@);
    if res {
        let ends = lemma_stall_has_way(text, 0);
        assert(is_way_to_stall(text, 0, ends));
    }
    if exists|ends: Seq<nat>| is_way_to_stall(text, 0, ends) {
        lemma_way_stalls(text, 0, choose|ends: Seq<nat>| is_way_to_stall(text, 0, ends));
    }
}

/// A block stalls its reader exactly if it decodes, with the label of a certificate, to bytes
/// that end inside their header.
pub proof fn law_stalling_block(block: Seq<u8>)
    ensures
        block_stalls(block) <==> (pem_block(block) matches Ok((label, der)) && label
            == seq!['C', 'E', 'R', 'T', 'I', 'F', 'I', 'C', 'A', 'T', 'E'] && header_is_cut(der)),
{
    reveal_strlit("CERTIFICATE");
    assert(CERTIFICATE_LABEL@ =~= seq!['C', 'E', 'R', 'T', 'I', 'F', 'I', 'C', 'A', 'T', 'E']);
}

/// A document is answered unless it is blank or stalls its reader.
pub proof fn law_answered(pem: &[u8], res: bool, is_empty: bool, is_stalling: bool)
    requires
        call_ensures(answered, (pem,), res),
        call_ensures(blank, (pem,), is_empty),
        call_ensures(stalling, (pem,), is_stalling),
    ensures
        res == is_answered(pem@),
        res <==> !is_empty && !is_stalling,
{
}

/// Reading comes to an end where a byte or less is left, or no block ends. Otherwise it stalls on
/// the next block, or, if that is a certificate, where reading from its end on does.
pub proof fn law_stalls_block_by_block(pem: Seq<u8>, position: nat)
    ensures
        position + 1 >= pem.len() ==> !stalls_from(pem, position),
        (forall|at: int| position <= at ==> !#[trigger] boundary_at(pem, at)) ==> !stalls_from(
            pem,
            position,
        ),
        forall|at: int|
            position <= at && position + 1 < pem.len() && #[trigger] boundary_at(pem, at) && (
            forall|before: int|
                position <= before < at ==> !#[trigger] boundary_at(pem, before)) ==> {
                let block = pem.subrange(position as int, at + 25);
                stalls_from(pem, position) <==> block_stalls(block) || (pem_certificate(
                    block,
                ) is Ok && stalls_from(pem, (at + 25) as nat))
            },
{
    law_block_end_is_first(pem, position);
}

} // verus!
