//! The xxHash checksums that files are verified with.
use crate::tekst::{
    hex16, hexfelt, hexsifrene_staar_paa_plass, lik, smaa, smaa_bokstav_for_bokstav,
};
use vstd::arithmetic::power::{lemma_pow_positive, pow};
use vstd::prelude::*;
use vstd::utf8::is_ascii_chars;

verus! {

/// The XXH64 checksum of some bytes with a seed.
pub uninterp spec fn xxh64_sum(data: Seq<u8>, fro: u64) -> u64;

/// `xxhash_rust::xxh64::xxh64`: the XXH64 checksum of the bytes with the seed.
pub assume_specification[ xxhash_rust::xxh64::xxh64 ](input: &[u8], seed: u64) -> (r: u64)
    ensures
        r == xxh64_sum(input@, seed),
;

/// A running XXH64 checksum.
#[verifier::external_type_specification]
#[verifier::external_body]
pub struct ExXxh64(xxhash_rust::xxh64::Xxh64);

/// The bytes that a running checksum has been given so far.
pub uninterp spec fn matet(h: xxhash_rust::xxh64::Xxh64) -> Seq<u8>;

/// The seed that a running checksum was made with.
pub uninterp spec fn fro(h: xxhash_rust::xxh64::Xxh64) -> u64;

/// `Xxh64::new`: a running checksum that has been given nothing.
pub assume_specification[ xxhash_rust::xxh64::Xxh64::new ](seed: u64) -> (r:
    xxhash_rust::xxh64::Xxh64)
    ensures
        matet(r) == Seq::<u8>::empty(),
        fro(r) == seed,
;

/// `Xxh64::update`: adds bytes behind those that were given before.
pub assume_specification[ xxhash_rust::xxh64::Xxh64::update ](
    h: &mut xxhash_rust::xxh64::Xxh64,
    input: &[u8],
)
    ensures
        matet(*final(h)) == matet(*old(h)) + input@,
        fro(*final(h)) == fro(*old(h)),
;

/// `Xxh64::digest`: the checksum of all bytes given so far, however they were divided.
pub assume_specification[ xxhash_rust::xxh64::Xxh64::digest ](
    h: &xxhash_rust::xxh64::Xxh64,
) -> (r: u64)
    ensures
        r == xxh64_sum(matet(*h), fro(*h)),
;

/// How a checksum is written: sixteen hexadecimal digits.
pub open spec fn sjekksum(data: Seq<u8>) -> Seq<char> {
    hexfelt(xxh64_sum(data, 0) as nat, 16)
}

/// The checksum of a file that is read piece by piece.
pub struct Filsum {
    h: xxhash_rust::xxh64::Xxh64,
    lest: u64,
}

/// How many milliseconds must have passed since the last report of a file's reading
/// before the next.
pub const MELD_HASH_MS: u64 = 200;

impl Filsum {
    /// The bytes read so far.
    pub closed spec fn bytes(&self) -> Seq<u8> {
        matet(self.h)
    }

    /// The running checksum has no seed, and the count is that of the bytes read.
    pub closed spec fn gyldig(&self) -> bool {
        fro(self.h) == 0 && self.lest == matet(self.h).len()
    }

    /// Nothing has been read yet.
    pub fn ny() -> (r: Filsum)
        ensures
            r.gyldig(),
            r.bytes() == Seq::<u8>::empty(),
    {
        Filsum { h: xxhash_rust::xxh64::Xxh64::new(0), lest: 0 }
    }

    /// The next piece of the file has been read, `siden_ms` milliseconds after the last
    /// report. Gives the number of bytes read, where it is time to report it.
    pub fn mat(&mut self, bit: &[u8], siden_ms: u64) -> (r: Option<u64>)
        requires
            old(self).gyldig(),
            old(self).bytes().len() + bit@.len() <= u64::MAX,
        ensures
            final(self).gyldig(),
            final(self).bytes() == old(self).bytes() + bit@,
            r == if siden_ms > MELD_HASH_MS {
                Some((old(self).bytes().len() + bit@.len()) as u64)
            } else {
                None
            },
    {
        self.h.update(bit);
        self.lest = self.lest + bit.len() as u64;
        if siden_ms > MELD_HASH_MS {
            Some(self.lest)
        } else {
            None
        }
    }

    /// The checksum of all that was read.
    pub fn ferdig(&self) -> (r: String)
        requires
            self.gyldig(),
        ensures
            r@ == sjekksum(self.bytes()),
    {
        hex16(self.h.digest())
    }
}

/// The lower-case form of a text by the rules of Unicode.
pub uninterp spec fn smaa_bokstaver(s: Seq<char>) -> Seq<char>;

/// `str::to_lowercase`: the lower-case form of a text. Of a text in ASCII, its letters in
/// lower case.
pub assume_specification[ str::to_lowercase ](s: &str) -> (r: String)
    ensures
        r@ == smaa_bokstaver(s@),
        is_ascii_chars(s@) ==> r@ == smaa(s@),
;

/// Whether a file's checksum is the one that the server has, which may be written in
/// upper or lower case.
pub fn stemmer(beregnet: &str, forventet: &str) -> (r: bool)
    ensures
        r == (beregnet@ == smaa_bokstaver(forventet@)),
        is_ascii_chars(forventet@) ==> r == (beregnet@ == smaa(forventet@)),
{
    let liten = forventet.to_lowercase();
    lik(beregnet, liten.as_str())
}

/// A checksum is sixteen digits, the digit `k` places from the end counting the `k`th power
/// of sixteen, and its letters are small: putting it in lower case changes nothing.
pub proof fn sjekksum_er_seksten_sifre(data: Seq<u8>, k: nat)
    requires
        k < 16,
    ensures
        sjekksum(data).len() == 16,
        ({
            let c = sjekksum(data)[15 - k] as int;
            let d = (xxh64_sum(data, 0) as int / pow(16, k)) % 16;
            &&& d < 10 ==> c == 48 + d
            &&& d >= 10 ==> c == 97 + (d - 10)
        }),
        smaa(sjekksum(data)) == sjekksum(data),
{
    let n = xxh64_sum(data, 0) as nat;
    hexsifrene_staar_paa_plass(n, 16, k);
    let s = sjekksum(data);
    assert forall|i: int| 0 <= i < s.len() implies smaa(s)[i] == #[trigger] s[i] by {
        hexsifrene_staar_paa_plass(n, 16, (15 - i) as nat);
        smaa_bokstav_for_bokstav(s, i);
        assert(s[i] == hexfelt(n, 16)[16 - 1 - (15 - i)]);
        assert(0 <= (n as int / pow(16, (15 - i) as nat)) % 16 < 16) by {
            lemma_pow_positive(16, (15 - i) as nat);
        }
    }
    assert(smaa(s) =~= s);
}

} // verus!
