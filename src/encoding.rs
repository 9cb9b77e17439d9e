//! The output artifacts at byte level: 32-bit words in little-endian order,
//! and lines joined by newlines.
use vstd::prelude::*;

verus! {

/// The line separator of the text form.
pub const NEWLINE: u8 = 10;

/// The four bytes of `x`, least significant first.
pub open spec fn le_bytes(x: u32) -> Seq<u8> {
    seq![(x & 0xff) as u8, ((x >> 8) & 0xff) as u8, ((x >> 16) & 0xff) as u8, ((x >> 24) & 0xff) as u8]
}

/// The word whose least significant byte is `b[0]` and most significant `b[3]`.
pub open spec fn le_word(b: Seq<u8>) -> u32 {
    (b[0] as u32) | ((b[1] as u32) << 8) | ((b[2] as u32) << 16) | ((b[3] as u32) << 24)
}

/// The words of `v` in order, four little-endian bytes each.
pub open spec fn encoded(v: Seq<u32>) -> Seq<u8> {
    Seq::new(4 * v.len(), |k: int| le_bytes(v[k / 4])[k % 4])
}

/// The words read from `b`, four little-endian bytes each; bytes past the
/// last complete word are not read.
pub open spec fn decoded(b: Seq<u8>) -> Seq<u32> {
    Seq::new(b.len() / 4, |i: int| le_word(b.subrange(4 * i, 4 * i + 4)))
}

/// The lines of `lines` with one newline between each two, and none after
/// the last.
pub open spec fn joined(lines: Seq<Seq<u8>>) -> Seq<u8>
    decreases lines.len(),
{
    if lines.len() == 0 {
        Seq::empty()
    } else if lines.len() == 1 {
        lines[0]
    } else {
        joined(lines.drop_last()) + seq![NEWLINE] + lines.last()
    }
}

proof fn lemma_word_of_bytes(x: u32)
    ensures
        le_word(le_bytes(x)) == x,
{
    let b0 = (x & 0xff) as u8;
    let b1 = ((x >> 8) & 0xff) as u8;
    let b2 = ((x >> 16) & 0xff) as u8;
    let b3 = ((x >> 24) & 0xff) as u8;
    assert((b0 as u32) | ((b1 as u32) << 8) | ((b2 as u32) << 16) | ((b3 as u32) << 24) == x)
        by (bit_vector)
        requires
            b0 == (x & 0xff) as u8,
            b1 == ((x >> 8) & 0xff) as u8,
            b2 == ((x >> 16) & 0xff) as u8,
            b3 == ((x >> 24) & 0xff) as u8,
    ;
}

/// Decoding the binary form of a sequence of words gives back exactly those
/// words, bit for bit.
pub proof fn lemma_binary_round_trip(v: Seq<u32>)
    ensures
        decoded(encoded(v)) == v,
{
    let e = encoded(v);
    assert forall|i: int| 0 <= i < v.len() implies #[trigger] decoded(e)[i] == v[i] by {
        assert(e.subrange(4 * i, 4 * i + 4) =~= le_bytes(v[i]));
        lemma_word_of_bytes(v[i]);
    }
    assert(decoded(e) =~= v);
}

proof fn lemma_bytes_of_word(b: Seq<u8>)
    requires
        b.len() == 4,
    ensures
        le_bytes(le_word(b)) == b,
{
    let (b0, b1, b2, b3) = (b[0], b[1], b[2], b[3]);
    let x = le_word(b);
    assert(x == (b0 as u32) | ((b1 as u32) << 8) | ((b2 as u32) << 16) | ((b3 as u32) << 24));
    assert((x & 0xff) as u8 == b0 && ((x >> 8) & 0xff) as u8 == b1 && ((x >> 16) & 0xff) as u8 == b2
        && ((x >> 24) & 0xff) as u8 == b3) by (bit_vector)
        requires
            x == (b0 as u32) | ((b1 as u32) << 8) | ((b2 as u32) << 16) | ((b3 as u32) << 24),
    ;
    assert(le_bytes(x) =~= b);
}

/// A byte sequence of whole words is the binary form of the words read
/// from it.
pub proof fn lemma_bytes_round_trip(b: Seq<u8>)
    requires
        b.len() % 4 == 0,
    ensures
        encoded(decoded(b)) == b,
{
    let v = decoded(b);
    assert forall|k: int| 0 <= k < b.len() implies #[trigger] encoded(v)[k] == b[k] by {
        let i = k / 4;
        lemma_bytes_of_word(b.subrange(4 * i, 4 * i + 4));
        assert(b.subrange(4 * i, 4 * i + 4)[k % 4] == b[k]);
    }
    assert(encoded(v) =~= b);
}

/// The binary form of `words`: each word as four bytes, least significant
/// first, in order, with nothing before or after.
pub fn encode_words(words: &Vec<u32>) -> (r: Vec<u8>)
    ensures
        r@ == encoded(words@),
{
    let mut r: Vec<u8> = Vec::new();
    let mut i: usize = 0;
    while i < words.len()
        invariant
            i <= words.len(),
            r.len() == 4 * i,
            forall|k: int| 0 <= k < 4 * i ==> r[k] == le_bytes(words[k / 4])[k % 4],
        decreases words.len() - i,
    {
        let x = words[i];
        r.push((x & 0xff) as u8);
        r.push(((x >> 8) & 0xff) as u8);
        r.push(((x >> 16) & 0xff) as u8);
        r.push(((x >> 24) & 0xff) as u8);
        i = i + 1;
    }
    assert(r@ =~= encoded(words@));
    r
}

/// Reads back the words of a binary form; `None` when the length is not a
/// whole number of words.
pub fn decode_words(bytes: &Vec<u8>) -> (r: Option<Vec<u32>>)
    ensures
        r is None <==> bytes.len() % 4 != 0,
        r matches Some(v) ==> v@ == decoded(bytes@),
{
    if bytes.len() % 4 != 0 {
        return None;
    }
    let n = bytes.len() / 4;
    let mut v: Vec<u32> = Vec::new();
    let mut i: usize = 0;
    while i < n
        invariant
            n == bytes.len() / 4,
            i <= n,
            v.len() == i,
            forall|k: int| 0 <= k < i ==> v[k] == le_word(bytes@.subrange(4 * k, 4 * k + 4)),
        decreases n - i,
    {
        let b = 4 * i;
        let x: u32 = (bytes[b] as u32) | ((bytes[b + 1] as u32) << 8) | ((bytes[b + 2] as u32) << 16)
            | ((bytes[b + 3] as u32) << 24);
        v.push(x);
        i = i + 1;
    }
    assert(v@ =~= decoded(bytes@));
    Some(v)
}

/// The text form: the lines in order, separated by single newlines, with no
/// newline after the last.
pub fn join_lines(lines: &Vec<Vec<u8>>) -> (r: Vec<u8>)
    ensures
        r@ == joined(lines@.map_values(|l: Vec<u8>| l@)),
{
    let ghost all = lines@.map_values(|l: Vec<u8>| l@);
    let mut r: Vec<u8> = Vec::new();
    let mut i: usize = 0;
    while i < lines.len()
        invariant
            i <= lines.len(),
            all == lines@.map_values(|l: Vec<u8>| l@),
            r@ == joined(all.take(i as int)),
        decreases lines.len() - i,
    {
        let ghost before = r@;
        let line = &lines[i];
        if i > 0 {
            r.push(NEWLINE);
        }
        let mut j: usize = 0;
        while j < line.len()
            invariant
                j <= line.len(),
                i > 0 ==> r@ == before + seq![NEWLINE] + line@.take(j as int),
                i == 0 ==> r@ == before + line@.take(j as int),
            decreases line.len() - j,
        {
            r.push(line[j]);
            assert(line@.take(j + 1) =~= line@.take(j as int).push(line[j as int]));
            j = j + 1;
        }
        assert(line@.take(j as int) =~= line@);
        assert(all.take(i + 1).drop_last() =~= all.take(i as int));
        assert(all.take(i + 1).last() == line@);
        if i == 0 {
            assert(r@ =~= joined(all.take(1)));
        }
        i = i + 1;
    }
    assert(all.take(lines.len() as int) =~= all);
    r
}

} // verus!
