//! Driver structures as they lie in memory.

use vstd::prelude::*;

use crate::error::Error;
use crate::ffi::{OsRotCerts, RawOsRotError};
use crate::flexible::{
    flexible_align, flexible_layout, flexible_size, refusal, HEADER_ALIGN, HEADER_SIZE,
};
use crate::layout::{lemma_round_up, round_up, Layout};

verus! {

/// The size of a `uint32_t`.
pub const WORD_SIZE: usize = 4;

/// The order in which a machine keeps the bytes of a number.
#[derive(Clone, Copy, Debug, PartialEq, Eq, Structural)]
pub enum ByteOrder {
    /// The lowest byte comes first.
    Little,
    /// The highest byte comes first.
    Big,
}

/// The bytes of a `uint32_t` as they lie in memory.
pub open spec fn word_bytes(word: u32, order: ByteOrder) -> Seq<u8> {
    let b0 = (word % 0x100) as u8;
    let b1 = (word / 0x100 % 0x100) as u8;
    let b2 = (word / 0x1_0000 % 0x100) as u8;
    let b3 = (word / 0x100_0000) as u8;
    match order {
        ByteOrder::Little => seq![b0, b1, b2, b3],
        ByteOrder::Big => seq![b3, b2, b1, b0],
    }
}

/// The bytes of consecutive `uint32_t`s as they lie in memory.
pub open spec fn memory(words: Seq<u32>, order: ByteOrder) -> Seq<u8> {
    Seq::new(
        WORD_SIZE as nat * words.len(),
        |i: int| word_bytes(words[i / WORD_SIZE as int], order)[i % WORD_SIZE as int],
    )
}

/// The size of a chain buffer with room for `capacity` bytes.
pub open spec fn certs_size(capacity: nat) -> nat {
    flexible_size(vstd::layout::size_of::<u8>(), vstd::layout::align_of::<u8>(), capacity)
}

impl OsRotCerts {
    /// The structure lies in `bytes`: they are as many as its layout says, the error and the
    /// chain size are at the offsets zero and four, and the chain comes right behind them.
    pub open spec fn lies_in(self, bytes: Seq<u8>, order: ByteOrder) -> bool {
        let tail = HEADER_SIZE as int;
        &&& bytes.len() == certs_size(self.chain@.len())
        &&& bytes.subrange(0, 4) == word_bytes(self.error.0, order)
        &&& bytes.subrange(4, 8) == word_bytes(self.chain_size, order)
        &&& bytes.subrange(tail, tail + self.chain@.len()) == self.chain@
    }

    /// The bytes of `bytes` behind the chain are zero.
    pub open spec fn padded_in(self, bytes: Seq<u8>) -> bool {
        forall|i: int|
            HEADER_SIZE + self.chain@.len() <= i < bytes.len() ==> #[trigger] bytes[i] == 0
    }

    /// The structure in memory, on a machine of the given byte order.
    pub fn to_words(&self, order: ByteOrder) -> (res: Result<Vec<u32>, Error>)
        requires
            self.chain@.len() <= u32::MAX,
        ensures
            match res {
                Ok(words) => {
                    &&& refusal::<OsRotCerts>(self.chain@.len() as u32) is None
                    &&& self.lies_in(memory(words@, order), order)
                    &&& self.padded_in(memory(words@, order))
                },
                Err(e) => refusal::<OsRotCerts>(self.chain@.len() as u32) == Some(e),
            },
    {
        let capacity = self.chain.len();
        let layout = match flexible_layout::<OsRotCerts>(capacity as u32) {
            Ok(layout) => layout,
            Err(e) => {
                return Err(e);
            },
        };
        let count = layout.size() / WORD_SIZE;
        proof {
            lemma_certs_size(capacity as nat);
        }
        let mut words: Vec<u32> = Vec::with_capacity(count);
        words.push(self.error.0);
        words.push(self.chain_size);
        while words.len() < count
            invariant
                capacity == self.chain@.len(),
                2 <= words@.len() <= count,
                WORD_SIZE * count == certs_size(capacity as nat) <= usize::MAX,
                words@[0] == self.error.0,
                words@[1] == self.chain_size,
                forall|w: int, k: int|
                    #![trigger word_bytes(words@[w], order)[k]]
                    2 <= w < words@.len() && 0 <= k < WORD_SIZE ==> word_bytes(words@[w], order)[k]
                        == byte_or_zero(self.chain@, WORD_SIZE * w + k - HEADER_SIZE),
            decreases count - words@.len(),
        {
            let at = WORD_SIZE * words.len() - HEADER_SIZE;
            let word = word_of(
                get_or_zero(self.chain.as_slice(), at),
                get_or_zero(self.chain.as_slice(), at + 1),
                get_or_zero(self.chain.as_slice(), at + 2),
                get_or_zero(self.chain.as_slice(), at + 3),
                order,
            );
            words.push(word);
        }
        proof {
            let bytes = memory(words@, order);
            assert(bytes.subrange(0, 4) =~= word_bytes(self.error.0, order));
            assert(bytes.subrange(4, 8) =~= word_bytes(self.chain_size, order));
            assert forall|i: int| HEADER_SIZE <= i < bytes.len() implies bytes[i] == byte_or_zero(
                self.chain@,
                i - HEADER_SIZE,
            ) by {
                let (w, k) = (i / WORD_SIZE as int, i % WORD_SIZE as int);
                assert(word_bytes(words@[w], order)[k] == byte_or_zero(
                    self.chain@,
                    WORD_SIZE * w + k - HEADER_SIZE,
                ));
            }
            let tail = HEADER_SIZE as int;
            assert(bytes.subrange(tail, tail + self.chain@.len()) =~= self.chain@);
        }
        Ok(words)
    }

    /// The structure with room for `capacity` bytes of the chain that lies in `words`, on a
    /// machine of the given byte order.
    pub fn from_words(words: &[u32], capacity: usize, order: ByteOrder) -> (res: OsRotCerts)
        requires
            WORD_SIZE * words@.len() == certs_size(capacity as nat),
        ensures
            res.chain@.len() == capacity,
            res.lies_in(memory(words@, order), order),
    {
        proof {
            lemma_certs_size(capacity as nat);
        }
        let ghost bytes = memory(words@, order);
        let mut chain: Vec<u8> = Vec::with_capacity(capacity);
        while chain.len() < capacity
            invariant
                chain@.len() <= capacity,
                WORD_SIZE * words@.len() == certs_size(capacity as nat) >= HEADER_SIZE + capacity,
                bytes == memory(words@, order),
                forall|i: int| 0 <= i < chain@.len() ==> #[trigger] chain@[i] == bytes[HEADER_SIZE + i],
            decreases capacity - chain@.len(),
        {
            let i = chain.len();
            let cell = bytes_of_word(words[HEADER_SIZE / WORD_SIZE + i / WORD_SIZE], order);
            assert((HEADER_SIZE + i) / WORD_SIZE as int == HEADER_SIZE / WORD_SIZE + i / WORD_SIZE);
            chain.push(cell[i % WORD_SIZE]);
        }
        assert(bytes.subrange(0, 4) =~= word_bytes(words@[0], order));
        assert(bytes.subrange(4, 8) =~= word_bytes(words@[1], order));
        let ghost tail = HEADER_SIZE as int;
        assert(bytes.subrange(tail, tail + capacity) =~= chain@);
        OsRotCerts { error: RawOsRotError(words[0]), chain_size: words[1], chain }
    }
}

/// The byte at `i`, or zero where there is none.
spec fn byte_or_zero(bytes: Seq<u8>, i: int) -> u8 {
    if 0 <= i < bytes.len() {
        bytes[i]
    } else {
        0
    }
}

/// The byte at `i`, or zero where there is none.
fn get_or_zero(bytes: &[u8], i: usize) -> (res: u8)
    ensures
        res == byte_or_zero(bytes@, i as int),
{
    if i < bytes.len() {
        bytes[i]
    } else {
        0
    }
}

/// The `uint32_t` whose bytes lie in memory as given.
fn word_of(m0: u8, m1: u8, m2: u8, m3: u8, order: ByteOrder) -> (res: u32)
    ensures
        word_bytes(res, order) == seq![m0, m1, m2, m3],
{
    let (b0, b1, b2, b3) = match order {
        ByteOrder::Little => (m0, m1, m2, m3),
        ByteOrder::Big => (m3, m2, m1, m0),
    };
    let (w0, w1, w2, w3): (u32, u32, u32, u32) = (b0 as u32, b1 as u32, b2 as u32, b3 as u32);
    let word: u32 = w0 | (w1 << 8) | (w2 << 16) | (w3 << 24);
    assert(word % 0x100 == w0 && word / 0x100 % 0x100 == w1 && word / 0x1_0000 % 0x100 == w2 && word
        / 0x100_0000 == w3) by (bit_vector)
        requires
            word == w0 | (w1 << 8) | (w2 << 16) | (w3 << 24),
            w0 < 0x100,
            w1 < 0x100,
            w2 < 0x100,
            w3 < 0x100,
    ;
    word
}

/// The bytes of a `uint32_t` as they lie in memory.
fn bytes_of_word(word: u32, order: ByteOrder) -> (res: [u8; 4])
    ensures
        res@ == word_bytes(word, order),
{
    let b0: u8 = (word % 0x100) as u8;
    let b1: u8 = (word / 0x100 % 0x100) as u8;
    let b2: u8 = (word / 0x1_0000 % 0x100) as u8;
    let b3: u8 = (word / 0x100_0000) as u8;
    match order {
        ByteOrder::Little => [b0, b1, b2, b3],
        ByteOrder::Big => [b3, b2, b1, b0],
    }
}

/// A chain buffer is a number of whole words, which has room for the header and the chain.
proof fn lemma_certs_size(capacity: nat)
    ensures
        certs_size(capacity) == round_up(HEADER_SIZE as nat + capacity, WORD_SIZE as nat),
        certs_size(capacity) % WORD_SIZE as nat == 0,
        HEADER_SIZE + capacity <= certs_size(capacity) < HEADER_SIZE + capacity + WORD_SIZE,
{
    broadcast use {vstd::layout::layout_of_primitives, vstd::layout::align_of_u8};

    assert(vstd::layout::align_of::<u8>() == 1);
    crate::layout::lemma_round_up_least(HEADER_SIZE as nat, 1, HEADER_SIZE as nat);
    lemma_round_up(HEADER_SIZE as nat + capacity, WORD_SIZE as nat);
}

/// A number is determined by its bytes in memory.
proof fn lemma_word_determined(a: u32, b: u32, order: ByteOrder)
    requires
        word_bytes(a, order) == word_bytes(b, order),
    ensures
        a == b,
{
    let (s, t) = (word_bytes(a, order), word_bytes(b, order));
    assert(s[0] == t[0] && s[1] == t[1] && s[2] == t[2] && s[3] == t[3]);
}

/// What lies in memory determines the structure: one that was written there is read back, its
/// fields unchanged.
pub proof fn law_image_round_trip(
    written: OsRotCerts,
    read: OsRotCerts,
    bytes: Seq<u8>,
    order: ByteOrder,
)
    requires
        written.lies_in(bytes, order),
        read.lies_in(bytes, order),
        written.chain@.len() == read.chain@.len(),
    ensures
        written.error == read.error,
        written.chain_size == read.chain_size,
        written.chain@ == read.chain@,
{
    lemma_word_determined(written.error.0, read.error.0, order);
    lemma_word_determined(written.chain_size, read.chain_size, order);
}

/// The words that a chain buffer lies in take as much memory as [`flexible_layout`] says of a
/// buffer with that room, and the layout's alignment is that of a `uint32_t`.
pub proof fn law_words_fill_layout(
    certs: OsRotCerts,
    layout: Layout,
    words: &[u32],
    order: ByteOrder,
)
    requires
        layout.bytes() == certs_size(certs.chain@.len()),
        layout.alignment() == flexible_align(vstd::layout::align_of::<u8>()),
        certs.lies_in(memory(words@, order), order),
    ensures
        vstd::layout::spec_size_of_val::<[u32]>(words) == layout.bytes(),
        layout.alignment() == HEADER_ALIGN,
{
    broadcast use {vstd::layout::layout_of_primitives, vstd::layout::layout_of_slices};

    assert(vstd::layout::size_of::<u32>() == WORD_SIZE);
    assert(words@.len() * 4 == 4 * words@.len());
    crate::flexible::law_certs_layout(0);
}

/// Where the fields of a chain buffer lie does not depend on what they hold: the error takes
/// the first four bytes, the chain size the next four, and the chain all that its layout
/// leaves but for less than a word of padding.
pub proof fn law_image_layout(certs: OsRotCerts, bytes: Seq<u8>, order: ByteOrder)
    requires
        certs.lies_in(bytes, order),
    ensures
        HEADER_SIZE == crate::flexible::tail_offset(vstd::layout::align_of::<u8>()),
        bytes.len() == certs_size(certs.chain@.len()),
        bytes.len() % WORD_SIZE as nat == 0,
        HEADER_SIZE + certs.chain@.len() <= bytes.len() < HEADER_SIZE + certs.chain@.len()
            + WORD_SIZE,
        bytes.take(HEADER_SIZE + certs.chain@.len()) == word_bytes(certs.error.0, order)
            + word_bytes(certs.chain_size, order) + certs.chain@,
{
    crate::flexible::law_certs_layout(0);
    lemma_certs_size(certs.chain@.len());
    let (e, n) = (word_bytes(certs.error.0, order), word_bytes(certs.chain_size, order));
    let end = HEADER_SIZE + certs.chain@.len();
    assert forall|i: int| 0 <= i < end implies #[trigger] bytes.take(end)[i] == (e + n
        + certs.chain@)[i] by {
        if i < 4 {
            assert(bytes.subrange(0, 4)[i] == bytes[i]);
        } else if i < 8 {
            assert(bytes.subrange(4, 8)[i - 4] == bytes[i]);
        } else {
            assert(bytes.subrange(8, end)[i - 8] == bytes[i]);
        }
    }
}

/// The bytes of a number add up to it, each by the weight of its place. Either order is the
/// reverse of the other.
pub proof fn law_word_bytes_add_up(word: u32)
    ensures
        ({
            let s = word_bytes(word, ByteOrder::Little);
            &&& s.len() == 4
            &&& s[0] + 0x100 * s[1] + 0x1_0000 * s[2] + 0x100_0000 * s[3] == word
        }),
        ({
            let s = word_bytes(word, ByteOrder::Big);
            &&& s.len() == 4
            &&& s[3] + 0x100 * s[2] + 0x1_0000 * s[1] + 0x100_0000 * s[0] == word
        }),
        word_bytes(word, ByteOrder::Big) == word_bytes(word, ByteOrder::Little).reverse(),
{
    assert(word_bytes(word, ByteOrder::Big) =~= word_bytes(word, ByteOrder::Little).reverse());
}

/// The memory of words is the bytes of one word behind those of the other.
pub proof fn law_memory_is_words_in_order(words: Seq<u32>, order: ByteOrder, w: int)
    requires
        0 <= w < words.len(),
    ensures
        memory(words, order).len() == 4 * words.len(),
        memory(words, order).subrange(4 * w, 4 * w + 4) == word_bytes(words[w], order),
{
    let piece = memory(words, order).subrange(4 * w, 4 * w + 4);
    assert forall|k: int| 0 <= k < 4 implies #[trigger] piece[k] == word_bytes(
        words[w],
        order,
    )[k] by {
        assert((4 * w + k) / 4 == w && (4 * w + k) % 4 == k);
    }
    assert(piece =~= word_bytes(words[w], order));
}

/// Words that a structure lies in have its error first and its chain size second. Each further
/// word that is full of the chain is the sum of its four bytes by the weights of their places,
/// which on a machine that keeps the lowest byte first grow from one byte to the next, and on
/// the other kind of machine fall.
pub proof fn law_words_hold_fields(
    certs: OsRotCerts,
    words: Seq<u32>,
    order: ByteOrder,
    w: int,
)
    requires
        certs.lies_in(memory(words, order), order),
        0 <= w && 4 * w + 4 <= certs.chain@.len(),
    ensures
        words.len() >= 3 + w,
        order == ByteOrder::Little ==> words[2 + w] == certs.chain@[4 * w] + 0x100
            * certs.chain@[4 * w + 1] + 0x1_0000 * certs.chain@[4 * w + 2] + 0x100_0000
            * certs.chain@[4 * w + 3],
        order == ByteOrder::Big ==> words[2 + w] == certs.chain@[4 * w + 3] + 0x100
            * certs.chain@[4 * w + 2] + 0x1_0000 * certs.chain@[4 * w + 1] + 0x100_0000
            * certs.chain@[4 * w],
{
    let bytes = memory(words, order);
    lemma_certs_size(certs.chain@.len());
    let at = 2 + w;
    law_memory_is_words_in_order(words, order, at);
    law_word_bytes_add_up(words[at]);
    let chain = bytes.subrange(8, 8int + certs.chain@.len());
    assert forall|k: int| 0 <= k < 4 implies #[trigger] word_bytes(words[at], order)[k]
        == certs.chain@[4 * w + k] by {
        assert(chain[4 * w + k] == bytes[8 + (4 * w + k)]);
        assert(bytes.subrange(4 * at, 4 * at + 4)[k] == bytes[4 * at + k]);
    }
    assert(word_bytes(words[at], order)[0] == certs.chain@[4 * w + 0]);
    assert(word_bytes(words[at], order)[1] == certs.chain@[4 * w + 1]);
    assert(word_bytes(words[at], order)[2] == certs.chain@[4 * w + 2]);
    assert(word_bytes(words[at], order)[3] == certs.chain@[4 * w + 3]);
}

/// The words that a structure lies in begin with its error and its chain size.
proof fn lemma_header_words(certs: OsRotCerts, words: Seq<u32>, order: ByteOrder)
    requires
        certs.lies_in(memory(words, order), order),
    ensures
        words.len() >= 2,
        words[0] == certs.error.0,
        words[1] == certs.chain_size,
{
    lemma_certs_size(certs.chain@.len());
    law_memory_is_words_in_order(words, order, 0);
    law_memory_is_words_in_order(words, order, 1);
    lemma_word_determined(words[0], certs.error.0, order);
    lemma_word_determined(words[1], certs.chain_size, order);
}

/// A structure is written as its error, its chain size, and its chain from offset eight on, byte
/// for byte, with zeros behind it up to a whole word.
pub proof fn law_written_image(certs: OsRotCerts, order: ByteOrder, res: Result<Vec<u32>, Error>)
    requires
        certs.chain@.len() <= 0x100_0000,
        call_ensures(OsRotCerts::to_words, (&certs, order), res),
    ensures
        res matches Ok(words) && {
            &&& words@[0] == certs.error.0
            &&& words@[1] == certs.chain_size
            &&& 8 + certs.chain@.len() <= 4 * words@.len() < 8 + certs.chain@.len() + 4
            &&& forall|i: int|
                0 <= i < certs.chain@.len() ==> #[trigger] memory(words@, order)[8 + i]
                    == certs.chain@[i]
            &&& forall|i: int|
                8 + certs.chain@.len() <= i < 4 * words@.len() ==> #[trigger] memory(
                    words@,
                    order,
                )[i] == 0
        },
{
    crate::flexible::law_certs_layout(certs.chain@.len() as u32);
    if let Ok(words) = res {
        lemma_certs_size(certs.chain@.len());
        lemma_header_words(certs, words@, order);
        let chain = memory(words@, order).subrange(8, 8int + certs.chain@.len());
        assert forall|i: int| 0 <= i < certs.chain@.len() implies #[trigger] memory(
            words@,
            order,
        )[8 + i] == certs.chain@[i] by {
            assert(chain[i] == memory(words@, order)[8 + i]);
        }
    }
}

/// What is read has the first word as its error, the second as its chain size, and as its chain
/// the bytes of memory from offset eight on, in their order.
pub proof fn law_read_image(words: &[u32], capacity: usize, order: ByteOrder, res: OsRotCerts)
    requires
        4 * words@.len() == certs_size(capacity as nat),
        call_ensures(OsRotCerts::from_words, (words, capacity, order), res),
    ensures
        res.error.0 == words@[0],
        res.chain_size == words@[1],
        res.chain@.len() == capacity,
        forall|i: int|
            0 <= i < capacity ==> #[trigger] res.chain@[i] == memory(words@, order)[8 + i],
{
    lemma_certs_size(capacity as nat);
    lemma_header_words(res, words@, order);
    let chain = memory(words@, order).subrange(8, 8int + res.chain@.len());
    assert forall|i: int| 0 <= i < capacity implies #[trigger] res.chain@[i] == memory(
        words@,
        order,
    )[8 + i] by {
        assert(chain[i] == memory(words@, order)[8 + i]);
    }
}

/// A structure that is written and read back is the same.
pub proof fn law_written_is_read_back(
    certs: OsRotCerts,
    order: ByteOrder,
    words: &[u32],
    written: Vec<u32>,
    res: OsRotCerts,
)
    requires
        certs.chain@.len() <= u32::MAX,
        call_ensures(OsRotCerts::to_words, (&certs, order), Ok(written)),
        words@ == written@,
        call_ensures(
            OsRotCerts::from_words,
            (words, certs.chain@.len() as usize, order),
            res,
        ),
    ensures
        res.error == certs.error,
        res.chain_size == certs.chain_size,
        res.chain@ == certs.chain@,
{
    assert(certs.chain.len() == certs.chain@.len());
    law_image_round_trip(certs, res, memory(words@, order), order);
}

} // verus!
