//! The descriptor the service reports for an uploaded metadata file: the
//! info hash in lowercase hexadecimal beside the sizes, names and announce
//! URL read from the metadata.

use vstd::prelude::*;

verus! {

/// The lowercase hexadecimal digit of a value below 16.
pub open spec fn hex_digit_lower(x: u8) -> u8
    recommends
        x < 16,
{
    if x < 10 {
        (0x30 + x) as u8
    } else {
        (0x61 + x - 10) as u8
    }
}

/// The lowercase hexadecimal rendering of a byte string: two digits per
/// byte, high digit first.
pub open spec fn hex_of(s: Seq<u8>) -> Seq<u8>
    decreases s.len(),
{
    if s.len() == 0 {
        Seq::empty()
    } else {
        seq![hex_digit_lower(s[0] / 16), hex_digit_lower(s[0] % 16)] + hex_of(s.skip(1))
    }
}

/// Appending a byte to the input appends its two digits to the output.
proof fn lemma_hex_of_snoc(s: Seq<u8>, x: u8)
    ensures
        hex_of(s.push(x)) == hex_of(s) + seq![
            hex_digit_lower(x / 16),
            hex_digit_lower(x % 16),
        ],
    decreases s.len(),
{
    let two = seq![hex_digit_lower(x / 16), hex_digit_lower(x % 16)];
    if s.len() == 0 {
        assert(s.push(x).skip(1) =~= Seq::empty());
        assert(s.push(x)[0] == x);
        assert(hex_of(s.push(x)) == seq![
            hex_digit_lower(s.push(x)[0] / 16),
            hex_digit_lower(s.push(x)[0] % 16),
        ] + hex_of(s.push(x).skip(1)));
        assert(hex_of(s.push(x).skip(1)) == Seq::<u8>::empty());
        assert(two + Seq::<u8>::empty() =~= hex_of(s) + two);
    } else {
        assert(s.push(x).skip(1) =~= s.skip(1).push(x));
        lemma_hex_of_snoc(s.skip(1), x);
        assert(s.push(x)[0] == s[0]);
        let head = seq![hex_digit_lower(s[0] / 16), hex_digit_lower(s[0] % 16)];
        assert(hex_of(s.push(x)) == head + hex_of(s.skip(1).push(x)));
        assert(head + (hex_of(s.skip(1)) + two) =~= (head + hex_of(s.skip(1))) + two);
        assert(hex_of(s) == head + hex_of(s.skip(1)));
    }
}

/// Every byte of a hexadecimal rendering is printable ASCII.
pub proof fn lemma_hex_of_ascii(s: Seq<u8>)
    ensures
        forall|i: int| 0 <= i < hex_of(s).len() ==> #[trigger] hex_of(s)[i] < 0x80,
        hex_of(s).len() == 2 * s.len(),
    decreases s.len(),
{
    if s.len() > 0 {
        lemma_hex_of_ascii(s.skip(1));
        assert forall|i: int| 0 <= i < hex_of(s).len() implies #[trigger] hex_of(s)[i]
            < 0x80 by {
            if i >= 2 {
                assert(hex_of(s)[i] == hex_of(s.skip(1))[i - 2]);
            }
        }
    }
}

/// The lowercase hexadecimal rendering of `bytes`.
pub fn hex_bytes(bytes: &[u8]) -> (r: Vec<u8>)
    ensures
        r@ == hex_of(bytes@),
{
    let mut out: Vec<u8> = Vec::new();
    let mut i: usize = 0;
    proof {
        assert(bytes@.take(0) =~= Seq::empty());
        assert(out@ =~= hex_of(bytes@.take(0)));
    }
    while i < bytes.len()
        invariant
            i <= bytes.len(),
            out@ == hex_of(bytes@.take(i as int)),
        decreases bytes.len() - i,
    {
        let b: u8 = bytes[i];
        let hi: u8 = b / 16;
        let lo: u8 = b % 16;
        out.push(
            if hi < 10 {
                0x30 + hi
            } else {
                0x61 + hi - 10
            },
        );
        out.push(
            if lo < 10 {
                0x30 + lo
            } else {
                0x61 + lo - 10
            },
        );
        proof {
            assert(bytes@.take(i + 1) =~= bytes@.take(i as int).push(bytes@[i as int]));
            lemma_hex_of_snoc(bytes@.take(i as int), bytes@[i as int]);
            assert(out@ =~= hex_of(bytes@.take(i + 1)));
        }
        i = i + 1;
    }
    proof {
        assert(bytes@.take(bytes@.len() as int) =~= bytes@);
    }
    out
}

/// Relies on `String::from_utf8`: ASCII bytes decode to the string of the
/// same code points (each below 128 maps to itself).
#[verifier::external_body]
fn ascii_to_string(bytes: Vec<u8>) -> (r: String)
    requires
        forall|i: int| 0 <= i < bytes@.len() ==> bytes@[i] < 0x80,
    ensures
        r@ == bytes@.map_values(|b: u8| b as char),
{
    String::from_utf8(bytes).unwrap_or_default()
}

/// The info hash rendered as a lowercase hexadecimal string.
pub fn hash_hex(info_hash: &[u8]) -> (r: String)
    ensures
        r@ == hex_of(info_hash@).map_values(|b: u8| b as char),
{
    let hex = hex_bytes(info_hash);
    proof {
        lemma_hex_of_ascii(info_hash@);
    }
    ascii_to_string(hex)
}

/// What the service reports for one uploaded metadata file.
#[derive(Debug)]
pub struct TorrentFile {
    pub hash: String,
    pub piece_length: u64,
    pub size: u64,
    pub announce: Option<String>,
    pub comment: Option<String>,
    pub files: Vec<String>,
}

impl TorrentFile {
    /// A report with the info hash rendered hexadecimal and the remaining
    /// fields as given.
    pub fn new(
        info_hash: &[u8],
        piece_length: u64,
        size: u64,
        announce: Option<String>,
        comment: Option<String>,
        files: Vec<String>,
    ) -> (r: TorrentFile)
        ensures
            r.hash@ == hex_of(info_hash@).map_values(|b: u8| b as char),
            r.piece_length == piece_length,
            r.size == size,
            r.announce == announce,
            r.comment == comment,
            r.files == files,
    {
        TorrentFile {
            hash: hash_hex(info_hash),
            piece_length,
            size,
            announce,
            comment,
            files,
        }
    }
}

} // verus!
