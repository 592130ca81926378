//! Value decoder.
//!
//! Renders a sample of a signal into one of the requested output encodings.
//! Two input representations exist: a two-state sample stores a definite
//! 0/1 per bit as packed big-endian bytes; a four-state sample may also
//! hold unknown or high-impedance bits and carries its canonical bit
//! characters. Four output encodings exist: a vector of 32-bit words, a
//! signed 32-bit integer, a hex string and a binary string.

use byteorder::ByteOrder;
use vstd::prelude::*;

verus! {

/// Output encodings a caller may request.
#[derive(PartialEq, Eq, Structural, Clone, Copy, Debug)]
pub enum ValueFormat {
    /// 32-bit words, least significant word first.
    Vector,
    /// The least significant 32-bit word as a signed integer.
    Integer,
    /// Hex digits, most significant first.
    HexString,
    /// One character per bit, most significant first.
    BinaryString,
}

/// One 32-bit word of a vector encoding: the value bits and the
/// unknown-mask bits.
#[derive(PartialEq, Eq, Structural, Clone, Copy, Debug)]
pub struct VectorWord {
    pub aval: i32,
    pub bval: i32,
}

/// A sample of a signal at one time-table index, as the backend stores it.
#[derive(Clone, Debug, PartialEq, Eq)]
pub enum Sample {
    /// Every bit is a definite 0 or 1, packed into bytes with the most
    /// significant byte first; only the low `width` bits are significant.
    TwoState { width: u32, data: Vec<u8> },
    /// Bits may be unknown or high-impedance; `bits` holds the canonical
    /// bit characters, most significant first, one per bit.
    FourState { width: u32, bits: Vec<char> },
    /// A representation the decoder does not know.
    Unsupported,
}

/// A decoded value in the encoding that was requested.
#[derive(Clone, Debug, PartialEq, Eq)]
pub enum DecodedValue {
    Vector(Vec<VectorWord>),
    Integer(i32),
    Text(String),
}

/// Why a sample could not be decoded. Both faults are caller-contract
/// violations: the output contract has no representation for the request.
#[derive(PartialEq, Eq, Structural, Clone, Copy, Debug)]
pub enum DecodeFault {
    /// The requested encoding is not implemented for this representation.
    UnsupportedFormat,
    /// The sample representation itself is not one the decoder knows.
    UnsupportedRepresentation,
}

/// Structural soundness of a sample: a two-state sample has exactly the
/// bytes its bit width needs, and a four-state sample has one bit
/// character per bit.
pub open spec fn sample_wf(s: Sample) -> bool {
    match s {
        Sample::TwoState { width, data } => 8 * data@.len() < usize::MAX && data@.len() == (width
            + 7) / 8,
        Sample::FourState { width, bits } => bits@.len() == width,
        Sample::Unsupported => true,
    }
}

/// Bit `k` of a packed big-endian byte sequence, with bits counted from
/// the least significant end.
pub open spec fn byte_bit(data: Seq<u8>, k: int) -> bool
    recommends
        0 <= k < 8 * data.len(),
{
    (data[data.len() - 1 - k / 8] >> ((k % 8) as u8)) & 1u8 == 1u8
}

/// The character that renders bit `k` of a two-state byte sequence.
pub open spec fn two_state_bit_char(data: Seq<u8>, k: int) -> char {
    if byte_bit(data, k) {
        '1'
    } else {
        '0'
    }
}

/// The canonical bit-character string of a two-state sample: one character
/// per bit, most significant bit first.
pub open spec fn spec_bin_string(data: Seq<u8>, width: nat) -> Seq<char>
    recommends
        width <= 8 * data.len(),
{
    Seq::new(width, |j: int| two_state_bit_char(data, width - 1 - j))
}

/// Render the canonical bit-character string of a two-state sample.
pub fn binary_string_two_state(data: &Vec<u8>, width: u32) -> (r: Vec<char>)
    requires
        width <= 8 * data@.len(),
        8 * data@.len() < usize::MAX,
    ensures
        r@ == spec_bin_string(data@, width as nat),
{
    let ghost gwhole = spec_bin_string(data@, width as nat);
    let mut out: Vec<char> = Vec::new();
    let mut j: u32 = 0;
    while j < width
        invariant
            width <= 8 * data@.len(),
            8 * data@.len() < usize::MAX,
            j <= width,
            out@ == gwhole.take(j as int),
            gwhole == spec_bin_string(data@, width as nat),
        decreases width - j,
    {
        let k: u32 = width - 1 - j;
        let byte_idx: usize = data.len() - 1 - (k as usize) / 8;
        let byte: u8 = data[byte_idx];
        let c: char = if (byte >> ((k % 8) as u8)) & 1u8 == 1u8 {
            '1'
        } else {
            '0'
        };
        proof {
            assert(byte_idx as int == data@.len() - 1 - (k as int) / 8);
            assert(c == two_state_bit_char(data@, k as int));
            assert(gwhole.take(j as int).push(gwhole[j as int]) =~= gwhole.take(j + 1));
        }
        out.push(c);
        j = j + 1;
    }
    proof {
        assert(gwhole.take(width as int) =~= gwhole);
    }
    out
}

/// The bit that character `j` of a bit-character string encodes, counted
/// from the least significant end: position `k` holds character
/// `len - 1 - k`; positions past the string are the zero padding.
pub open spec fn parsed_bit(bits: Seq<char>, k: int) -> bool {
    0 <= k < bits.len() && bits[bits.len() - 1 - k] == '1'
}

/// The byte whose lowest bit is bit `base` of a bit-character string,
/// re-parsing each character as a bit.
pub open spec fn byte_from_bits(bits: Seq<char>, base: int) -> u8 {
    ((if parsed_bit(bits, base + 7) {
        128int
    } else {
        0int
    }) + (if parsed_bit(bits, base + 6) {
        64int
    } else {
        0int
    }) + (if parsed_bit(bits, base + 5) {
        32int
    } else {
        0int
    }) + (if parsed_bit(bits, base + 4) {
        16int
    } else {
        0int
    }) + (if parsed_bit(bits, base + 3) {
        8int
    } else {
        0int
    }) + (if parsed_bit(bits, base + 2) {
        4int
    } else {
        0int
    }) + (if parsed_bit(bits, base + 1) {
        2int
    } else {
        0int
    }) + (if parsed_bit(bits, base) {
        1int
    } else {
        0int
    })) as u8
}

/// The big-endian byte sequence that re-parsing a bit-character string
/// reconstructs, zero-padded on the left to `nbytes` bytes.
pub open spec fn spec_bits_to_bytes(bits: Seq<char>, nbytes: nat) -> Seq<u8> {
    Seq::new(nbytes, |i: int| byte_from_bits(bits, 8 * (nbytes - 1 - i)))
}

/// Round trip: re-parsing each character of the binary-string rendering of
/// a two-state byte sequence as a bit reconstructs the original bytes,
/// provided the bits above the bit width are zero padding.
pub proof fn lemma_binary_round_trip(data: Seq<u8>, width: nat)
    requires
        data.len() == (width + 7) / 8,
        forall|k: int| width <= k < 8 * data.len() ==> !byte_bit(data, k),
    ensures
        spec_bits_to_bytes(spec_bin_string(data, width), data.len()) == data,
{
    let bits = spec_bin_string(data, width);
    assert forall|k: int| 0 <= k < 8 * data.len() implies parsed_bit(bits, k) == byte_bit(
        data,
        k,
    ) by {
        if k < width {
            assert(bits[bits.len() - 1 - k] == two_state_bit_char(data, k));
        }
    }
    assert forall|i: int| 0 <= i < data.len() implies spec_bits_to_bytes(bits, data.len())[i]
        == data[i] by {
        let base = 8 * (data.len() - 1 - i);
        assert(0 <= base && base + 7 < 8 * data.len());
        assert(byte_from_bits(bits, base) == ((if byte_bit(data, base + 7) {
            128int
        } else {
            0int
        }) + (if byte_bit(data, base + 6) {
            64int
        } else {
            0int
        }) + (if byte_bit(data, base + 5) {
            32int
        } else {
            0int
        }) + (if byte_bit(data, base + 4) {
            16int
        } else {
            0int
        }) + (if byte_bit(data, base + 3) {
            8int
        } else {
            0int
        }) + (if byte_bit(data, base + 2) {
            4int
        } else {
            0int
        }) + (if byte_bit(data, base + 1) {
            2int
        } else {
            0int
        }) + (if byte_bit(data, base) {
            1int
        } else {
            0int
        })) as u8);
        assert((base + 7) / 8 == data.len() - 1 - i && (base + 7) % 8 == 7);
        assert((base + 6) / 8 == data.len() - 1 - i && (base + 6) % 8 == 6);
        assert((base + 5) / 8 == data.len() - 1 - i && (base + 5) % 8 == 5);
        assert((base + 4) / 8 == data.len() - 1 - i && (base + 4) % 8 == 4);
        assert((base + 3) / 8 == data.len() - 1 - i && (base + 3) % 8 == 3);
        assert((base + 2) / 8 == data.len() - 1 - i && (base + 2) % 8 == 2);
        assert((base + 1) / 8 == data.len() - 1 - i && (base + 1) % 8 == 1);
        assert(base / 8 == data.len() - 1 - i && base % 8 == 0);
        let b = data[i];
        assert(b == ((if (b >> 7u8) & 1u8 == 1u8 {
            128int
        } else {
            0int
        }) + (if (b >> 6u8) & 1u8 == 1u8 {
            64int
        } else {
            0int
        }) + (if (b >> 5u8) & 1u8 == 1u8 {
            32int
        } else {
            0int
        }) + (if (b >> 4u8) & 1u8 == 1u8 {
            16int
        } else {
            0int
        }) + (if (b >> 3u8) & 1u8 == 1u8 {
            8int
        } else {
            0int
        }) + (if (b >> 2u8) & 1u8 == 1u8 {
            4int
        } else {
            0int
        }) + (if (b >> 1u8) & 1u8 == 1u8 {
            2int
        } else {
            0int
        }) + (if (b >> 0u8) & 1u8 == 1u8 {
            1int
        } else {
            0int
        })) as u8) by (bit_vector);
    }
    assert(spec_bits_to_bytes(bits, data.len()) =~= data);
}

/// Whether a character is a definite binary digit.
pub open spec fn is_bit_char(c: char) -> bool {
    c == '0' || c == '1'
}

/// The value of one chunk of bit characters, most significant first: bit
/// `i` of the chunk, counted from the chunk's right, weighs two to the
/// `i`th.
pub open spec fn bit_chunk_val(bits: Seq<char>) -> int
    decreases bits.len(),
{
    if bits.len() == 0 {
        0
    } else {
        2 * bit_chunk_val(bits.drop_last()) + (if bits.last() == '1' {
            1int
        } else {
            0int
        })
    }
}

/// Two to the `n`th, for the chunk sizes the hex encoding uses.
pub open spec fn pow2_small(n: int) -> int {
    if n <= 0 {
        1
    } else if n == 1 {
        2
    } else if n == 2 {
        4
    } else if n == 3 {
        8
    } else {
        16
    }
}

proof fn lemma_chunk_val_bound(bits: Seq<char>)
    requires
        bits.len() <= 4,
    ensures
        0 <= bit_chunk_val(bits) < pow2_small(bits.len() as int),
    decreases bits.len(),
{
    if bits.len() > 0 {
        lemma_chunk_val_bound(bits.drop_last());
    }
}

/// The hex digit character for a chunk value.
pub open spec fn spec_hex_digit(v: int) -> char {
    if v == 0 {
        '0'
    } else if v == 1 {
        '1'
    } else if v == 2 {
        '2'
    } else if v == 3 {
        '3'
    } else if v == 4 {
        '4'
    } else if v == 5 {
        '5'
    } else if v == 6 {
        '6'
    } else if v == 7 {
        '7'
    } else if v == 8 {
        '8'
    } else if v == 9 {
        '9'
    } else if v == 10 {
        'a'
    } else if v == 11 {
        'b'
    } else if v == 12 {
        'c'
    } else if v == 13 {
        'd'
    } else if v == 14 {
        'e'
    } else {
        'f'
    }
}

/// Hex rendering of a bit-character string: the string is grouped into
/// 4-bit chunks aligned to the least significant end, so a length that is
/// not a multiple of 4 yields a short leading chunk; each chunk folds into
/// one hex digit; the digits stand in the same order as the chunks.
pub open spec fn spec_hex_string(bits: Seq<char>) -> Seq<char>
    decreases bits.len(),
{
    if bits.len() == 0 {
        Seq::empty()
    } else {
        let head: int = if bits.len() % 4 == 0 {
            4
        } else {
            (bits.len() % 4) as int
        };
        seq![spec_hex_digit(bit_chunk_val(bits.take(head)))] + spec_hex_string(bits.skip(head))
    }
}

fn hex_digit_char(v: u8) -> (c: char)
    requires
        v < 16,
    ensures
        c == spec_hex_digit(v as int),
{
    match v {
        0 => '0',
        1 => '1',
        2 => '2',
        3 => '3',
        4 => '4',
        5 => '5',
        6 => '6',
        7 => '7',
        8 => '8',
        9 => '9',
        10 => 'a',
        11 => 'b',
        12 => 'c',
        13 => 'd',
        14 => 'e',
        _ => 'f',
    }
}

/// Render a bit-character string as hex digits.
pub fn hex_string_of_bits(bits: &Vec<char>) -> (r: Vec<char>)
    requires
        forall|i: int| 0 <= i < bits@.len() ==> is_bit_char(#[trigger] bits@[i]),
    ensures
        r@ == spec_hex_string(bits@),
{
    let mut out: Vec<char> = Vec::new();
    let mut pos: usize = 0;
    proof {
        assert(bits@.skip(0) =~= bits@);
        assert(Seq::<char>::empty() + spec_hex_string(bits@) =~= spec_hex_string(bits@));
    }
    while pos < bits.len()
        invariant
            forall|i: int| 0 <= i < bits@.len() ==> is_bit_char(#[trigger] bits@[i]),
            pos <= bits@.len(),
            pos == 0 || (bits@.len() - pos) % 4 == 0,
            out@ + spec_hex_string(bits@.skip(pos as int)) == spec_hex_string(bits@),
        decreases bits@.len() - pos,
    {
        let ghost gpos = pos as int;
        let ghost gtail = bits@.skip(gpos);
        let remaining: usize = bits.len() - pos;
        let cs: usize = if remaining % 4 == 0 {
            4
        } else {
            remaining % 4
        };
        let ghost gchunk = bits@.subrange(gpos, gpos + cs as int);
        let mut v: u8 = 0;
        let mut i: usize = 0;
        while i < cs
            invariant
                forall|q: int| 0 <= q < bits@.len() ==> is_bit_char(#[trigger] bits@[q]),
                pos + cs <= bits@.len(),
                bits@.len() <= usize::MAX,
                cs <= 4,
                i <= cs,
                gpos == pos as int,
                v as int == bit_chunk_val(bits@.subrange(gpos, gpos + i as int)),
                (v as int) < pow2_small(i as int),
            decreases cs - i,
        {
            proof {
                assert(bits@.subrange(gpos, gpos + i + 1).drop_last() =~= bits@.subrange(
                    gpos,
                    gpos + i,
                ));
            }
            let c: char = bits[pos + i];
            v = 2 * v + (if c == '1' {
                1
            } else {
                0
            });
            i = i + 1;
        }
        let digit: char = hex_digit_char(v);
        proof {
            lemma_chunk_val_bound(gchunk);
            // The chunk the loop consumed is the head chunk of the tail the
            // specification peels off.
            assert(gtail.len() == remaining as int);
            assert(gtail.take(cs as int) =~= gchunk);
            assert(gtail.skip(cs as int) =~= bits@.skip(gpos + cs as int));
            assert(spec_hex_string(gtail) == seq![spec_hex_digit(bit_chunk_val(gchunk))]
                + spec_hex_string(bits@.skip(gpos + cs as int)));
            assert(out@.push(digit) + spec_hex_string(bits@.skip(gpos + cs as int)) =~= out@ + (
            seq![digit] + spec_hex_string(bits@.skip(gpos + cs as int))));
        }
        out.push(digit);
        pos = pos + cs;
    }
    proof {
        assert(bits@.skip(bits@.len() as int) =~= Seq::<char>::empty());
        assert(out@ + Seq::<char>::empty() =~= out@);
    }
    out
}

/// Hex rendering depends only on the bit characters: two two-state byte
/// sequences that agree on every bit below the width render to the same
/// binary string and therefore to the same hex string, whatever their byte
/// alignment.
pub proof fn lemma_hex_independent_of_alignment(d1: Seq<u8>, d2: Seq<u8>, width: nat)
    requires
        width <= 8 * d1.len(),
        width <= 8 * d2.len(),
        forall|k: int| 0 <= k < width ==> byte_bit(d1, k) == byte_bit(d2, k),
    ensures
        spec_bin_string(d1, width) == spec_bin_string(d2, width),
        spec_hex_string(spec_bin_string(d1, width)) == spec_hex_string(
            spec_bin_string(d2, width),
        ),
{
    assert(spec_bin_string(d1, width) =~= spec_bin_string(d2, width));
}

/// The big-endian 32-bit word at byte position `pos` of a byte sequence.
pub open spec fn spec_be_word(b: Seq<u8>, pos: int) -> int
    recommends
        0 <= pos,
        pos + 4 <= b.len(),
{
    (b[pos] as int) * 0x1000000 + (b[pos + 1] as int) * 0x10000 + (b[pos + 2] as int) * 0x100 + (
    b[pos + 3] as int)
}

/// How many zero bytes the word encoding pads on the left.
pub open spec fn pad_len(n: int) -> int {
    if n % 4 == 0 {
        0
    } else {
        4 - n % 4
    }
}

/// The byte sequence zero-padded on the left to a multiple of four bytes.
pub open spec fn spec_padded(data: Seq<u8>) -> Seq<u8> {
    Seq::new(pad_len(data.len() as int) as nat, |i: int| 0u8) + data
}

/// The 32-bit words of a two-state byte sequence: the bytes zero-padded on
/// the left to a multiple of four and split into big-endian words, most
/// significant word first.
pub open spec fn spec_words(data: Seq<u8>) -> Seq<u32> {
    Seq::new(
        ((data.len() + 3) / 4) as nat,
        |w: int| spec_be_word(spec_padded(data), 4 * w) as u32,
    )
}

/// Relies on byteorder's `BigEndian::read_u32`: reads four bytes at `pos`
/// as one big-endian 32-bit word.
#[verifier::external_body]
fn read_u32_be_at(buf: &Vec<u8>, pos: usize) -> (r: u32)
    requires
        pos + 4 <= buf@.len(),
    ensures
        r as int == spec_be_word(buf@, pos as int),
{
    byteorder::BigEndian::read_u32(&buf[pos..pos + 4])
}

/// Split a byte sequence into big-endian 32-bit words, zero-padding it on
/// the left to a multiple of four bytes; most significant word first.
pub fn bytes_to_u32s_be(data: &Vec<u8>) -> (words: Vec<u32>)
    requires
        data@.len() + 3 < usize::MAX,
    ensures
        words@ == spec_words(data@),
{
    let pad: usize = if data.len() % 4 == 0 {
        0
    } else {
        4 - data.len() % 4
    };
    let mut padded: Vec<u8> = Vec::new();
    let mut i: usize = 0;
    while i < pad
        invariant
            i <= pad,
            padded@ == Seq::new(i as nat, |q: int| 0u8),
        decreases pad - i,
    {
        proof {
            assert(Seq::new(i as nat, |q: int| 0u8).push(0u8) =~= Seq::new(
                (i + 1) as nat,
                |q: int| 0u8,
            ));
        }
        padded.push(0u8);
        i = i + 1;
    }
    let mut j: usize = 0;
    while j < data.len()
        invariant
            j <= data@.len(),
            pad == pad_len(data@.len() as int),
            padded@ == Seq::new(pad as nat, |q: int| 0u8) + data@.take(j as int),
        decreases data@.len() - j,
    {
        proof {
            assert((Seq::new(pad as nat, |q: int| 0u8) + data@.take(j as int)).push(
                data@[j as int],
            ) =~= Seq::new(pad as nat, |q: int| 0u8) + data@.take(j + 1));
        }
        padded.push(data[j]);
        j = j + 1;
    }
    proof {
        assert(data@.take(data@.len() as int) =~= data@);
        assert(padded@ =~= spec_padded(data@));
    }
    let n_words: usize = padded.len() / 4;
    let mut words: Vec<u32> = Vec::new();
    let mut w: usize = 0;
    while w < n_words
        invariant
            w <= n_words,
            padded@ == spec_padded(data@),
            padded@.len() == 4 * n_words,
            4 * n_words <= usize::MAX,
            n_words == (data@.len() + 3) / 4,
            words@ == spec_words(data@).take(w as int),
        decreases n_words - w,
    {
        let word: u32 = read_u32_be_at(&padded, 4 * w);
        proof {
            assert(spec_be_word(spec_padded(data@), 4 * (w as int)) < 0x100000000);
            assert(word == spec_words(data@)[w as int]);
            assert(spec_words(data@).take(w as int).push(spec_words(data@)[w as int])
                =~= spec_words(data@).take(w + 1));
        }
        words.push(word);
        w = w + 1;
    }
    proof {
        assert(spec_words(data@).take(n_words as int) =~= spec_words(data@));
    }
    words
}

/// Word-vector encoding of a two-state byte sequence: its 32-bit words,
/// least significant word first, each with a zero unknown-mask.
pub open spec fn spec_vector_words(data: Seq<u8>) -> Seq<VectorWord> {
    spec_words(data).reverse().map_values(|w: u32| VectorWord { aval: w as i32, bval: 0 })
}

/// Render a two-state byte sequence in the word-vector encoding.
pub fn vector_words_two_state(data: &Vec<u8>) -> (r: Vec<VectorWord>)
    requires
        data@.len() + 3 < usize::MAX,
    ensures
        r@ == spec_vector_words(data@),
{
    let words = bytes_to_u32s_be(data);
    let mut out: Vec<VectorWord> = Vec::new();
    let mut i: usize = words.len();
    while i > 0
        invariant
            i <= words@.len(),
            words@ == spec_words(data@),
            out@.len() == words@.len() - i,
            forall|q: int|
                0 <= q < out@.len() ==> out@[q] == (VectorWord {
                    aval: words@[words@.len() - 1 - q] as i32,
                    bval: 0,
                }),
        decreases i,
    {
        i = i - 1;
        out.push(VectorWord { aval: words[i] as i32, bval: 0 });
    }
    proof {
        assert(out@ =~= spec_vector_words(data@));
    }
    out
}

/// Integer encoding of a two-state byte sequence: its least significant
/// 32-bit word, reinterpreted as a signed 32-bit integer.
pub fn integer_two_state(data: &Vec<u8>) -> (r: i32)
    requires
        0 < data@.len(),
        data@.len() + 3 < usize::MAX,
    ensures
        r == spec_words(data@).last() as i32,
{
    let words = bytes_to_u32s_be(data);
    let n: usize = words.len();
    words[n - 1] as i32
}

/// Number of 32-bit words needed to cover `size` bits.
pub fn cover_with_32(size: usize) -> (r: usize)
    requires
        size + 31 <= usize::MAX,
    ensures
        r == (size + 31) / 32,
{
    (size + 31) / 32
}

/// Word-vector encoding of a four-state sample: the right number of words
/// for the bit width, with value and unknown-mask zeroed. Four-state
/// detail is not yet decoded into the vector format.
pub fn vector_words_four_state(width: u32) -> (r: Vec<VectorWord>)
    ensures
        r@ == Seq::new(
            ((width as int + 31) / 32) as nat,
            |i: int| VectorWord { aval: 0, bval: 0 },
        ),
{
    let n64: u64 = (width as u64 + 31) / 32;
    let n: usize = n64 as usize;
    let mut out: Vec<VectorWord> = Vec::new();
    let mut i: usize = 0;
    while i < n
        invariant
            i <= n,
            n == (width as int + 31) / 32,
            out@ == Seq::new(i as nat, |q: int| VectorWord { aval: 0, bval: 0 }),
        decreases n - i,
    {
        proof {
            assert(Seq::new(i as nat, |q: int| VectorWord { aval: 0, bval: 0 }).push(
                VectorWord { aval: 0, bval: 0 },
            ) =~= Seq::new((i + 1) as nat, |q: int| VectorWord { aval: 0, bval: 0 }));
        }
        out.push(VectorWord { aval: 0, bval: 0 });
        i = i + 1;
    }
    out
}

/// Relies on std's `String::push`: appends one character to the string.
#[verifier::external_body]
fn push_char(s: &mut String, c: char)
    ensures
        final(s)@ == old(s)@.push(c),
{
    s.push(c);
}

/// Build a string that holds exactly the given characters.
pub fn string_from_chars(chars: &Vec<char>) -> (s: String)
    ensures
        s@ == chars@,
{
    let mut s = String::new();
    let mut i: usize = 0;
    while i < chars.len()
        invariant
            i <= chars@.len(),
            s@ == chars@.take(i as int),
        decreases chars@.len() - i,
    {
        proof {
            assert(chars@.take(i as int).push(chars@[i as int]) =~= chars@.take(i + 1));
        }
        push_char(&mut s, chars[i]);
        i = i + 1;
    }
    proof {
        assert(chars@.take(chars@.len() as int) =~= chars@);
    }
    s
}

/// What decoding a sample into an encoding must yield.
///
/// A two-state sample decodes into every encoding. A four-state sample
/// decodes fully only into the binary string, which carries the real
/// four-state characters; its vector and integer encodings are zeroed
/// placeholders of the right shape, and its hex encoding is an
/// unimplemented-format fault. A two-state sample without bytes, or a
/// representation the decoder does not know, is a representation fault.
pub open spec fn decoded_correctly(
    sample: Sample,
    format: ValueFormat,
    r: Result<DecodedValue, DecodeFault>,
) -> bool {
    match sample {
            Sample::TwoState { width, data } => {
                if data@.len() == 0 {
                    r == Result::<DecodedValue, DecodeFault>::Err(
                        DecodeFault::UnsupportedRepresentation,
                    )
                } else {
                    match format {
                        ValueFormat::Vector => r matches Ok(DecodedValue::Vector(v)) && v@
                            == spec_vector_words(data@),
                        ValueFormat::Integer => r matches Ok(DecodedValue::Integer(n)) && n
                            == spec_words(data@).last() as i32,
                        ValueFormat::HexString => r matches Ok(DecodedValue::Text(t)) && t@
                            == spec_hex_string(spec_bin_string(data@, width as nat)),
                        ValueFormat::BinaryString => r matches Ok(DecodedValue::Text(t)) && t@
                            == spec_bin_string(data@, width as nat),
                    }
                }
            },
            Sample::FourState { width, bits } => match format {
                ValueFormat::Vector => r matches Ok(DecodedValue::Vector(v)) && v@ == Seq::new(
                    ((width as int + 31) / 32) as nat,
                    |i: int| VectorWord { aval: 0, bval: 0 },
                ),
                ValueFormat::Integer => r == Result::<DecodedValue, DecodeFault>::Ok(
                    DecodedValue::Integer(0),
                ),
                ValueFormat::HexString => r == Result::<DecodedValue, DecodeFault>::Err(
                    DecodeFault::UnsupportedFormat,
                ),
                ValueFormat::BinaryString => r matches Ok(DecodedValue::Text(t)) && t@ == bits@,
            },
            Sample::Unsupported => r == Result::<DecodedValue, DecodeFault>::Err(
                DecodeFault::UnsupportedRepresentation,
            ),
    }
}

/// Decode a sample into the requested output encoding.
pub fn decode_sample(sample: &Sample, format: ValueFormat) -> (r: Result<
    DecodedValue,
    DecodeFault,
>)
    requires
        sample_wf(*sample),
    ensures
        decoded_correctly(*sample, format, r),
{
    match sample {
        Sample::TwoState { width, data } => {
            if data.len() == 0 {
                return Err(DecodeFault::UnsupportedRepresentation);
            }
            match format {
                ValueFormat::Vector => Ok(DecodedValue::Vector(vector_words_two_state(data))),
                ValueFormat::Integer => Ok(DecodedValue::Integer(integer_two_state(data))),
                ValueFormat::HexString => {
                    let bits = binary_string_two_state(data, *width);
                    proof {
                        assert forall|q: int| 0 <= q < bits@.len() implies is_bit_char(
                            #[trigger] bits@[q],
                        ) by {
                            assert(bits@[q] == two_state_bit_char(data@, width as int - 1 - q));
                        }
                    }
                    let hex = hex_string_of_bits(&bits);
                    Ok(DecodedValue::Text(string_from_chars(&hex)))
                },
                ValueFormat::BinaryString => {
                    let bits = binary_string_two_state(data, *width);
                    Ok(DecodedValue::Text(string_from_chars(&bits)))
                },
            }
        },
        Sample::FourState { width, bits } => match format {
            ValueFormat::Vector => Ok(DecodedValue::Vector(vector_words_four_state(*width))),
            ValueFormat::Integer => Ok(DecodedValue::Integer(0)),
            ValueFormat::HexString => Err(DecodeFault::UnsupportedFormat),
            ValueFormat::BinaryString => Ok(DecodedValue::Text(string_from_chars(bits))),
        },
        Sample::Unsupported => Err(DecodeFault::UnsupportedRepresentation),
    }
}

} // verus!
