use vstd::prelude::*;

use crate::dict::Dict;

verus! {

/// Bits kept from the random value; the two cleared groups sit in the
/// noun and adverb fields.
pub const KEEP_MASK: u128 = 0xFFFFFFFFFFFF4FFFBFFFFFFFFFFFFFFF;

/// Bits forced to one after masking.
pub const SET_MASK: u128 = 0x40008000000000000000;

/// The random value with both masks applied.
pub open spec fn masked(x: u128) -> u128 {
    (x & 0xFFFFFFFFFFFF4FFFBFFFFFFFFFFFFFFF) | 0x40008000000000000000
}

/// The adjective field: bits 96 to 127.
pub open spec fn adjective_field(v: u128) -> int {
    ((v >> 96u128) & 0xFFFFFFFF) as int
}

/// The noun field: bits 64 to 95.
pub open spec fn noun_field(v: u128) -> int {
    ((v >> 64u128) & 0xFFFFFFFF) as int
}

/// The adverb field: bits 32 to 63.
pub open spec fn adverb_field(v: u128) -> int {
    ((v >> 32u128) & 0xFFFFFFFF) as int
}

/// The verb field: bits 0 to 31.
pub open spec fn verb_field(v: u128) -> int {
    (v & 0xFFFFFFFF) as int
}

/// Four words joined by hyphens.
pub open spec fn phrase(a: Seq<char>, n: Seq<char>, d: Seq<char>, b: Seq<char>) -> Seq<char> {
    a + seq!['-'] + n + seq!['-'] + d + seq!['-'] + b
}

/// Relies on rand::random: 128 bits drawn from the thread-local generator.
#[verifier::external_body]
fn random_bits() -> u128 {
    rand::random::<u128>()
}

/// A four-word identifier held as a 128-bit value.
#[derive(Copy, Clone)]
pub struct Fluid(u128);

impl View for Fluid {
    type V = u128;

    closed spec fn view(&self) -> u128 {
        self.0
    }
}

impl Fluid {
    /// The rendered phrase of this identifier in `d`.
    pub open spec fn phrase_in(&self, d: &Dict) -> Seq<char> {
        phrase(
            d.adjectives@[adjective_field(self@) % d.adjectives@.len() as int]@,
            d.nouns@[noun_field(self@) % d.nouns@.len() as int]@,
            d.adverbs@[adverb_field(self@) % d.adverbs@.len() as int]@,
            d.verbs@[verb_field(self@) % d.verbs@.len() as int]@,
        )
    }

    /// A fresh identifier: random bits with the two nibbles pinned.
    pub fn new() -> (r: Fluid)
        ensures
            exists|x: u128| r@ == masked(x),
    {
        let x = random_bits();
        Fluid::from_random(x)
    }

    /// Builds an identifier from 128 random bits by pinning the two nibbles.
    pub fn from_random(x: u128) -> (r: Fluid)
        ensures
            r@ == masked(x),
    {
        Fluid((x & KEEP_MASK) | SET_MASK)
    }

    /// The 128-bit value.
    pub fn value(&self) -> (r: u128)
        ensures
            r == self@,
    {
        self.0
    }

    /// Positions in the adjective, noun, adverb and verb lists.
    pub fn indices(&self, dict: &Dict) -> (r: (usize, usize, usize, usize))
        requires
            dict.wf(),
        ensures
            r.0 as int == adjective_field(self@) % dict.adjectives@.len() as int,
            r.1 as int == noun_field(self@) % dict.nouns@.len() as int,
            r.2 as int == adverb_field(self@) % dict.adverbs@.len() as int,
            r.3 as int == verb_field(self@) % dict.verbs@.len() as int,
            r.0 < dict.adjectives@.len(),
            r.1 < dict.nouns@.len(),
            r.2 < dict.adverbs@.len(),
            r.3 < dict.verbs@.len(),
    {
        let v = self.0;
        let f3 = (v >> 96u128) & 0xFFFFFFFF;
        let f2 = (v >> 64u128) & 0xFFFFFFFF;
        let f1 = (v >> 32u128) & 0xFFFFFFFF;
        let f0 = v & 0xFFFFFFFF;
        assert(f0 <= 0xFFFFFFFF && f1 <= 0xFFFFFFFF && f2 <= 0xFFFFFFFF && f3 <= 0xFFFFFFFF)
            by (bit_vector)
            requires
                f0 == v & 0xFFFFFFFF,
                f1 == (v >> 32u128) & 0xFFFFFFFF,
                f2 == (v >> 64u128) & 0xFFFFFFFF,
                f3 == (v >> 96u128) & 0xFFFFFFFF;
        let a = (f3 as usize) % dict.adjectives.len();
        let n = (f2 as usize) % dict.nouns.len();
        let d = (f1 as usize) % dict.adverbs.len();
        let b = (f0 as usize) % dict.verbs.len();
        (a, n, d, b)
    }

    /// The four selected words joined by hyphens: adjective, noun, adverb, verb.
    pub fn render(&self, dict: &Dict) -> (r: String)
        requires
            dict.wf(),
        ensures
            r@ == self.phrase_in(dict),
    {
        let (a, n, d, b) = self.indices(dict);
        let mut s = dict.adjectives[a].clone();
        s.append("-");
        s.append(dict.nouns[n].as_str());
        s.append("-");
        s.append(dict.adverbs[d].as_str());
        s.append("-");
        s.append(dict.verbs[b].as_str());
        proof {
            reveal_strlit("-");
        }
        assert(s@ =~= self.phrase_in(dict));
        s
    }
}

/// Rendering depends on the value and the dictionary alone: two identifiers
/// with the same value render to the same phrase in the same dictionary.
pub proof fn render_determined(f: Fluid, g: Fluid, d: &Dict)
    requires
        f@ == g@,
    ensures
        f.phrase_in(d) == g.phrase_in(d),
{
}

/// Masking leaves every bit outside the two pinned nibbles unchanged, fixes
/// the noun nibble at 4 and keeps the adverb nibble within 8..=11.
pub proof fn mask_invariant(x: u128)
    ensures
        (masked(x) ^ x) & !0xF000F000000000000000u128 == 0,
        (masked(x) >> 76u128) & 0xF == 4,
        (masked(x) >> 60u128) & 0xC == 8,
{
    assert((((x & 0xFFFFFFFFFFFF4FFFBFFFFFFFFFFFFFFF) | 0x40008000000000000000) ^ x)
        & !0xF000F000000000000000u128 == 0) by (bit_vector);
    assert((((x & 0xFFFFFFFFFFFF4FFFBFFFFFFFFFFFFFFF) | 0x40008000000000000000) >> 76u128) & 0xF
        == 4) by (bit_vector);
    assert((((x & 0xFFFFFFFFFFFF4FFFBFFFFFFFFFFFFFFF) | 0x40008000000000000000) >> 60u128) & 0xC
        == 8) by (bit_vector);
}

} // verus!
