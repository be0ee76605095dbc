//! How words and coils lie in the bytes of a frame: a word as two bytes, the
//! high one first; coils eight to a byte, the first coil in the lowest bit,
//! the last byte filled up with zeros.

use vstd::prelude::*;

verus! {

/// The high byte of a word.
pub open spec fn hi(word: u16) -> u8 {
    (word / 256) as u8
}

/// The low byte of a word.
pub open spec fn lo(word: u16) -> u8 {
    (word % 256) as u8
}

/// The word that two bytes make, the high one first.
pub open spec fn word_of(hi: u8, lo: u8) -> u16 {
    (hi * 256 + lo) as u16
}

/// The two bytes of a word, the high one first.
pub open spec fn word_bytes(word: u16) -> Seq<u8> {
    seq![hi(word), lo(word)]
}

/// The bytes of a run of words, each word high byte first.
pub open spec fn words_bytes(words: Seq<u16>) -> Seq<u8> {
    Seq::new(
        2 * words.len(),
        |i: int|
            if i % 2 == 0 {
                hi(words[i / 2])
            } else {
                lo(words[i / 2])
            },
    )
}

/// The words that a run of bytes holds; a last odd byte is left over.
pub open spec fn bytes_words(bytes: Seq<u8>) -> Seq<u16> {
    Seq::new(bytes.len() / 2, |i: int| word_of(bytes[2 * i], bytes[2 * i + 1]))
}

/// The value of bit `k` of a byte, for `k` from 0 to 7.
pub open spec fn weight(k: int) -> int {
    if k == 0 {
        1
    } else if k == 1 {
        2
    } else if k == 2 {
        4
    } else if k == 3 {
        8
    } else if k == 4 {
        16
    } else if k == 5 {
        32
    } else if k == 6 {
        64
    } else {
        128
    }
}

/// Whether bit `k` of a byte is set.
pub open spec fn bit_of(byte: u8, k: int) -> bool {
    (byte as int / weight(k)) % 2 == 1
}

/// The state of coil `i` of a run, a coil past the end being off.
pub open spec fn coil_at(coils: Seq<bool>, i: int) -> bool {
    0 <= i < coils.len() && coils[i]
}

/// What the first `k` coils of the `j`-th group of eight add up to.
pub open spec fn packed_bits(coils: Seq<bool>, j: int, k: nat) -> int
    decreases k,
{
    if k == 0 {
        0
    } else {
        packed_bits(coils, j, (k - 1) as nat) + if coil_at(coils, 8 * j + k - 1) {
            weight(k - 1)
        } else {
            0
        }
    }
}

/// The number of bytes that `n` coils take.
pub open spec fn coil_bytes(n: int) -> int {
    (n + 7) / 8
}

/// The bytes of a run of coils.
pub open spec fn coils_bytes(coils: Seq<bool>) -> Seq<u8> {
    Seq::new(coil_bytes(coils.len() as int) as nat, |j: int| packed_bits(coils, j, 8) as u8)
}

/// The byte at index `j` of a run, a byte past the end being zero.
pub open spec fn byte_at(bytes: Seq<u8>, j: int) -> u8 {
    if 0 <= j < bytes.len() {
        bytes[j]
    } else {
        0
    }
}

/// The first `n` coils that a run of bytes holds; coils past the last byte
/// are off.
pub open spec fn bytes_coils(bytes: Seq<u8>, n: nat) -> Seq<bool> {
    Seq::new(n, |i: int| bit_of(byte_at(bytes, i / 8), i % 8))
}

/// A run of coils filled up with coils that are off to a whole number of
/// bytes.
pub open spec fn padded(coils: Seq<bool>) -> Seq<bool> {
    Seq::new((8 * coil_bytes(coils.len() as int)) as nat, |i: int| coil_at(coils, i))
}

/// A word is the word of its two bytes, and two bytes are the bytes of their
/// word.
pub proof fn lemma_word_round_trip(word: u16, high: u8, low: u8)
    ensures
        word_of(hi(word), lo(word)) == word,
        hi(word_of(high, low)) == high,
        lo(word_of(high, low)) == low,
{
}

/// A run of words is what its bytes hold.
pub proof fn lemma_words_round_trip(words: Seq<u16>)
    ensures
        words_bytes(words).len() == 2 * words.len(),
        bytes_words(words_bytes(words)) == words,
{
    let bytes = words_bytes(words);
    assert forall|i: int| 0 <= i < words.len() implies #[trigger] bytes_words(bytes)[i]
        == words[i] by {
        assert(bytes[2 * i] == hi(words[i]));
        assert(bytes[2 * i + 1] == lo(words[i]));
        lemma_word_round_trip(words[i], 0, 0);
    }
    assert(bytes_words(bytes) =~= words);
}

/// A group of up to eight coils adds up to less than the value of the next
/// bit, and each bit of the sum is the state of its coil.
pub proof fn lemma_packed_bits(coils: Seq<bool>, j: int, m: nat)
    requires
        m <= 8,
    ensures
        0 <= packed_bits(coils, j, m),
        m < 8 ==> packed_bits(coils, j, m) < weight(m as int),
        packed_bits(coils, j, m) < 256,
        forall|k: int|
            0 <= k < m ==> ((packed_bits(coils, j, m) / weight(k)) % 2 == 1) == coil_at(
                coils,
                8 * j + k,
            ),
    decreases m,
{
    if m > 0 {
        let before = packed_bits(coils, j, (m - 1) as nat);
        let now = packed_bits(coils, j, m);
        lemma_packed_bits(coils, j, (m - 1) as nat);
        assert forall|k: int| 0 <= k < m implies ((now / weight(k)) % 2 == 1) == coil_at(
            coils,
            8 * j + k,
        ) by {
            if k < m - 1 {
                assert(((before / weight(k)) % 2 == 1) == coil_at(coils, 8 * j + k));
                lemma_higher_bit_keeps_lower(before, m - 1, k);
            } else {
                lemma_top_bit(before, m - 1);
            }
        }
    }
}

/// Adding the value of bit `m` to a number leaves its bits below `m` as they
/// were.
proof fn lemma_higher_bit_keeps_lower(n: int, m: int, k: int)
    requires
        0 <= k < m < 8,
        0 <= n,
    ensures
        ((n + weight(m)) / weight(k)) % 2 == (n / weight(k)) % 2,
{
    let w = weight(k);
    let q = weight(m) / w;
    assert(weight(m) == q * w && q % 2 == 0);
    assert((n + q * w) / w == n / w + q) by (nonlinear_arith)
        requires
            w > 0,
            0 <= n,
            0 <= q,
    ;
}

/// A number below the value of bit `m` has that bit clear, and set once the
/// value of the bit is added.
proof fn lemma_top_bit(n: int, m: int)
    requires
        0 <= m < 8,
        0 <= n < weight(m),
    ensures
        (n / weight(m)) % 2 == 0,
        ((n + weight(m)) / weight(m)) % 2 == 1,
{
}

/// The first coils that the bytes of a run hold are the run itself, and all
/// the coils that they hold are the run filled up.
pub proof fn lemma_coils_round_trip(coils: Seq<bool>)
    ensures
        coils_bytes(coils).len() == coil_bytes(coils.len() as int),
        bytes_coils(coils_bytes(coils), coils.len()) == coils,
        bytes_coils(coils_bytes(coils), 8 * coils_bytes(coils).len()) == padded(coils),
{
    let bytes = coils_bytes(coils);
    let all = bytes_coils(bytes, 8 * bytes.len());
    assert forall|i: int| 0 <= i < all.len() implies #[trigger] all[i] == coil_at(coils, i) by {
        let j = i / 8;
        let k = i % 8;
        lemma_packed_bits(coils, j, 8);
        assert(bytes[j] == packed_bits(coils, j, 8));
        assert(8 * j + k == i);
    }
    assert(all =~= padded(coils));
    assert(bytes_coils(bytes, coils.len()) =~= coils) by {
        assert forall|i: int| 0 <= i < coils.len() implies #[trigger] bytes_coils(
            bytes,
            coils.len(),
        )[i] == coils[i] by {
            assert(all[i] == coil_at(coils, i));
        }
    }
}

/// Filling up changes neither the coils of a run nor the bytes that it
/// takes, and a run of whole bytes is its own filling.
pub proof fn lemma_padded(coils: Seq<bool>)
    ensures
        padded(coils).len() == 8 * coil_bytes(coils.len() as int),
        coils.len() <= padded(coils).len() < coils.len() + 8,
        padded(coils).take(coils.len() as int) == coils,
        coils_bytes(padded(coils)) == coils_bytes(coils),
        coils.len() % 8 == 0 ==> padded(coils) == coils,
{
    let full = padded(coils);
    assert(full.take(coils.len() as int) =~= coils);
    assert forall|j: int| 0 <= j < coil_bytes(coils.len() as int) implies packed_bits(full, j, 8)
        == packed_bits(coils, j, 8) by {
        lemma_packed_bits_agree(full, coils, j, 8);
    }
    assert(coils_bytes(full) =~= coils_bytes(coils));
    if coils.len() % 8 == 0 {
        assert(full =~= coils);
    }
}

/// Two runs whose coils agree in a group of eight add up to the same there.
proof fn lemma_packed_bits_agree(a: Seq<bool>, b: Seq<bool>, j: int, m: nat)
    requires
        forall|i: int| 8 * j <= i < 8 * j + m ==> coil_at(a, i) == coil_at(b, i),
    ensures
        packed_bits(a, j, m) == packed_bits(b, j, m),
    decreases m,
{
    if m > 0 {
        lemma_packed_bits_agree(a, b, j, (m - 1) as nat);
        assert(coil_at(a, 8 * j + m - 1) == coil_at(b, 8 * j + m - 1));
    }
}

/// The high byte of a word.
pub fn high_byte(word: u16) -> (byte: u8)
    ensures
        byte == hi(word),
{
    (word / 256) as u8
}

/// The low byte of a word.
pub fn low_byte(word: u16) -> (byte: u8)
    ensures
        byte == lo(word),
{
    (word % 256) as u8
}

/// The word that two bytes make, the high one first.
pub fn make_word(high: u8, low: u8) -> (word: u16)
    ensures
        word == word_of(high, low),
{
    (high as u16) * 256 + (low as u16)
}

/// Appends the two bytes of a word.
pub fn push_word(out: &mut Vec<u8>, word: u16)
    ensures
        final(out)@ == old(out)@ + word_bytes(word),
{
    out.push(high_byte(word));
    out.push(low_byte(word));
    assert(out@ =~= old(out)@ + word_bytes(word));
}

/// Appends the bytes of a run of words.
pub fn push_words(out: &mut Vec<u8>, words: &[u16])
    ensures
        final(out)@ == old(out)@ + words_bytes(words@),
{
    let mut i: usize = 0;
    while i < words.len()
        invariant
            i <= words.len(),
            out@ == old(out)@ + words_bytes(words@.take(i as int)),
        decreases words.len() - i,
    {
        let ghost before = out@;
        let word = words[i];
        out.push(high_byte(word));
        out.push(low_byte(word));
        assert(out@ =~= old(out)@ + words_bytes(words@.take(i + 1)));
        i = i + 1;
    }
    assert(words@.take(i as int) =~= words@);
}

/// The words that a run of bytes holds; a last odd byte is left over.
pub fn read_words(bytes: &[u8]) -> (words: Vec<u16>)
    ensures
        words@ == bytes_words(bytes@),
{
    let count: usize = bytes.len() / 2;
    let mut words: Vec<u16> = Vec::new();
    let mut i: usize = 0;
    while i < count
        invariant
            i <= count,
            count == bytes.len() / 2,
            words@ == bytes_words(bytes@).take(i as int),
        decreases count - i,
    {
        words.push(make_word(bytes[2 * i], bytes[2 * i + 1]));
        assert(words@ =~= bytes_words(bytes@).take(i + 1));
        i = i + 1;
    }
    assert(bytes_words(bytes@).take(i as int) =~= bytes_words(bytes@));
    words
}

/// The value of bit `k` of a byte.
fn bit_weight(k: usize) -> (value: u8)
    requires
        k < 8,
    ensures
        value == weight(k as int),
{
    if k == 0 {
        1
    } else if k == 1 {
        2
    } else if k == 2 {
        4
    } else if k == 3 {
        8
    } else if k == 4 {
        16
    } else if k == 5 {
        32
    } else if k == 6 {
        64
    } else {
        128
    }
}

/// Appends the bytes of a run of coils.
pub fn push_coils(out: &mut Vec<u8>, coils: &[bool])
    requires
        coils.len() <= usize::MAX - 7,
    ensures
        final(out)@ == old(out)@ + coils_bytes(coils@),
{
    let count: usize = (coils.len() + 7) / 8;
    let mut j: usize = 0;
    while j < count
        invariant
            j <= count,
            count == coil_bytes(coils.len() as int),
            coils.len() <= usize::MAX - 7,
            out@ == old(out)@ + coils_bytes(coils@).take(j as int),
        decreases count - j,
    {
        let mut byte: u8 = 0;
        let mut k: usize = 0;
        while k < 8
            invariant
                k <= 8,
                j < count,
                count == coil_bytes(coils.len() as int),
                coils.len() <= usize::MAX - 7,
                byte == packed_bits(coils@, j as int, k as nat),
            decreases 8 - k,
        {
            let at: usize = 8 * j + k;
            proof {
                lemma_packed_bits(coils@, j as int, k as nat);
                lemma_packed_bits(coils@, j as int, (k + 1) as nat);
            }
            if at < coils.len() && coils[at] {
                byte = byte + bit_weight(k);
            }
            k = k + 1;
        }
        out.push(byte);
        assert(out@ =~= old(out)@ + coils_bytes(coils@).take(j + 1));
        j = j + 1;
    }
    assert(coils_bytes(coils@).take(j as int) =~= coils_bytes(coils@));
}

/// The first `n` coils that a run of bytes holds; coils past the last byte
/// are off.
pub fn read_coils(bytes: &[u8], n: usize) -> (coils: Vec<bool>)
    ensures
        coils@ == bytes_coils(bytes@, n as nat),
{
    let mut coils: Vec<bool> = Vec::new();
    let mut i: usize = 0;
    while i < n
        invariant
            i <= n,
            coils@ == bytes_coils(bytes@, n as nat).take(i as int),
        decreases n - i,
    {
        let byte: u8 = if i / 8 < bytes.len() {
            bytes[i / 8]
        } else {
            0
        };
        coils.push((byte / bit_weight(i % 8)) % 2 == 1);
        assert(coils@ =~= bytes_coils(bytes@, n as nat).take(i + 1));
        i = i + 1;
    }
    assert(bytes_coils(bytes@, n as nat).take(i as int) =~= bytes_coils(bytes@, n as nat));
    coils
}

} // verus!
