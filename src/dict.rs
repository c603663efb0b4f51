use vstd::prelude::*;

use crate::words::{filter, kept_words, lines_of, views};

verus! {

/// The four word lists that identifiers are rendered from.
pub struct Dict {
    pub adjectives: Vec<String>,
    pub adverbs: Vec<String>,
    pub verbs: Vec<String>,
    pub nouns: Vec<String>,
}

/// Why a dictionary could not be built or decoded.
#[derive(Debug, Clone, Copy, PartialEq, Eq, Structural)]
pub enum DictError {
    /// One of the four lists is empty.
    EmptyList,
    /// The bytes are not an encoded dictionary.
    Corrupt,
}

#[verifier::external_type_specification]
#[verifier::external_body]
pub struct ExDecodeError(bincode::error::DecodeError);

#[verifier::external_type_specification]
#[verifier::external_body]
pub struct ExEncodeError(bincode::error::EncodeError);

/// What bincode's standard encoding gives for the four lists, in the order
/// adjectives, adverbs, verbs, nouns.
pub uninterp spec fn dict_bytes(
    adjectives: Seq<Seq<char>>,
    adverbs: Seq<Seq<char>>,
    verbs: Seq<Seq<char>>,
    nouns: Seq<Seq<char>>,
) -> Seq<u8>;

/// Relies on bincode::encode_to_vec with the standard configuration: the
/// encoding of the four lists, one after another. Writing into a `Vec` and
/// encoding strings and vectors never fail, so the call always succeeds.
#[verifier::external_body]
fn encode_lists(d: &Dict) -> (r: Result<Vec<u8>, bincode::error::EncodeError>)
    ensures
        r is Ok,
        r is Ok ==> r->Ok_0@ == dict_bytes(
            views(d.adjectives@),
            views(d.adverbs@),
            views(d.verbs@),
            views(d.nouns@),
        ),
{
    bincode::encode_to_vec(
        (&d.adjectives, &d.adverbs, &d.verbs, &d.nouns),
        bincode::config::standard(),
    )
}

/// The most bytes that decoding may claim; bincode refuses input that would
/// need more, so no allocation grows past it.
pub const DECODE_LIMIT: usize = 134217728;

/// The four lists that bincode's standard decoding, limited to
/// `DECODE_LIMIT`, reads from the start of `bytes`; `None` where it fails.
pub uninterp spec fn decoded_lists(bytes: Seq<u8>) -> Option<
    (Seq<Seq<char>>, Seq<Seq<char>>, Seq<Seq<char>>, Seq<Seq<char>>),
>;

/// Relies on bincode::decode_from_slice with the standard configuration and a
/// limit of `DECODE_LIMIT` bytes, for four lists of strings; what follows
/// them is ignored. Each length read claims 8 bytes, each list of `k`
/// strings 24 * k more, each string its byte count, so the encoding of four
/// lists in at most a 64th of the limit decodes back to those lists.
#[verifier::external_body]
fn decode_lists(bytes: &[u8]) -> (r: Result<
    (Vec<String>, Vec<String>, Vec<String>, Vec<String>),
    bincode::error::DecodeError,
>)
    ensures
        r is Ok <==> decoded_lists(bytes@) is Some,
        r is Ok ==> decoded_lists(bytes@) == Some(
            (views(r->Ok_0.0@), views(r->Ok_0.1@), views(r->Ok_0.2@), views(r->Ok_0.3@)),
        ),
        forall|a: Seq<Seq<char>>, d: Seq<Seq<char>>, v: Seq<Seq<char>>, n: Seq<Seq<char>>|
            #![trigger dict_bytes(a, d, v, n)]
            bytes@ == dict_bytes(a, d, v, n) && 64 * bytes@.len() <= DECODE_LIMIT ==> r is Ok
                && views(r->Ok_0.0@) == a && views(r->Ok_0.1@) == d && views(r->Ok_0.2@) == v
                && views(r->Ok_0.3@) == n,
{
    let config = bincode::config::standard().with_limit::<DECODE_LIMIT>();
    match bincode::decode_from_slice(bytes, config) {
        Ok((lists, _)) => Ok(lists),
        Err(e) => Err(e),
    }
}

impl Dict {
    /// Every list is non-empty, so that each index field selects a word.
    pub open spec fn wf(&self) -> bool {
        self.adjectives@.len() > 0 && self.adverbs@.len() > 0 && self.verbs@.len() > 0
            && self.nouns@.len() > 0
    }

    /// Number of distinct phrases the lists can produce.
    pub open spec fn combinations(&self) -> int {
        self.adjectives@.len() as int * self.nouns@.len() as int * self.adverbs@.len() as int
            * self.verbs@.len() as int
    }

    pub fn unique_combinations(&self) -> (r: u128)
        requires
            self.combinations() <= u128::MAX,
        ensures
            r as int == self.combinations(),
    {
        let a = self.adjectives.len() as u128;
        let n = self.nouns.len() as u128;
        let v = self.adverbs.len() as u128;
        let b = self.verbs.len() as u128;
        if a == 0 || n == 0 || v == 0 || b == 0 {
            proof {
                let (ai, ni, vi, bi) = (a as int, n as int, v as int, b as int);
                assert(ai * ni * vi * bi == 0) by (nonlinear_arith)
                    requires ai == 0 || ni == 0 || vi == 0 || bi == 0;
            }
            return 0;
        }
        proof {
            let (ai, ni, vi, bi) = (a as int, n as int, v as int, b as int);
            assert(ai * ni <= ai * ni * vi * bi) by (nonlinear_arith)
                requires ai >= 1, ni >= 1, vi >= 1, bi >= 1;
            assert(ai * ni * vi <= ai * ni * vi * bi) by (nonlinear_arith)
                requires ai >= 1, ni >= 1, vi >= 1, bi >= 1;
        }
        a * n * v * b
    }

    /// A dictionary from four lists, refused when any of them is empty.
    pub fn from_lists(
        adjectives: Vec<String>,
        adverbs: Vec<String>,
        verbs: Vec<String>,
        nouns: Vec<String>,
    ) -> (r: Result<Dict, DictError>)
        ensures
            r is Ok <==> (adjectives@.len() > 0 && adverbs@.len() > 0 && verbs@.len() > 0
                && nouns@.len() > 0),
            r is Err ==> r->Err_0 == DictError::EmptyList,
            r is Ok ==> ({
                let d = r->Ok_0;
                &&& d.adjectives@ == adjectives@
                &&& d.adverbs@ == adverbs@
                &&& d.verbs@ == verbs@
                &&& d.nouns@ == nouns@
            }),
    {
        if adjectives.len() == 0 || adverbs.len() == 0 || verbs.len() == 0 || nouns.len() == 0 {
            Err(DictError::EmptyList)
        } else {
            Ok(Dict { adjectives, adverbs, verbs, nouns })
        }
    }

    /// Filters four raw word lists against one exclusion text. `None` when a
    /// list filters down to nothing.
    pub fn build(adj: &str, adv: &str, vrb: &str, n: &str, exclusion: &str) -> (r: Option<Dict>)
        ensures
            r is Some <==> (kept_words(lines_of(adj@), exclusion@).len() > 0
                && kept_words(lines_of(adv@), exclusion@).len() > 0
                && kept_words(lines_of(vrb@), exclusion@).len() > 0
                && kept_words(lines_of(n@), exclusion@).len() > 0),
            r is Some ==> ({
                let d = r->Some_0;
                &&& views(d.adjectives@) == kept_words(lines_of(adj@), exclusion@)
                &&& views(d.adverbs@) == kept_words(lines_of(adv@), exclusion@)
                &&& views(d.verbs@) == kept_words(lines_of(vrb@), exclusion@)
                &&& views(d.nouns@) == kept_words(lines_of(n@), exclusion@)
            }),
    {
        let a = filter(adj, exclusion);
        let d = filter(adv, exclusion);
        let v = filter(vrb, exclusion);
        let o = filter(n, exclusion);
        assert(views(a@).len() == a@.len() && views(d@).len() == d@.len());
        assert(views(v@).len() == v@.len() && views(o@).len() == o@.len());
        match Dict::from_lists(a, d, v, o) {
            Ok(dict) => Some(dict),
            Err(_) => None,
        }
    }

    /// Decodes a dictionary written by `encode`. Fails with `Corrupt` on bytes
    /// that bincode refuses and with `EmptyList` when a decoded list is empty;
    /// the encoding of a dictionary with no empty list, in at most a 64th of
    /// `DECODE_LIMIT` bytes, decodes back to the same four lists.
    pub fn decode(bytes: &[u8]) -> (r: Result<Dict, DictError>)
        ensures
            decoded_lists(bytes@) is None ==> r == Err::<Dict, DictError>(DictError::Corrupt),
            decoded_lists(bytes@) is Some ==> ({
                let (a, d, v, n) = decoded_lists(bytes@)->Some_0;
                if a.len() > 0 && d.len() > 0 && v.len() > 0 && n.len() > 0 {
                    &&& r is Ok
                    &&& views(r->Ok_0.adjectives@) == a
                    &&& views(r->Ok_0.adverbs@) == d
                    &&& views(r->Ok_0.verbs@) == v
                    &&& views(r->Ok_0.nouns@) == n
                } else {
                    r == Err::<Dict, DictError>(DictError::EmptyList)
                }
            }),
            r is Ok ==> r->Ok_0.wf(),
            forall|a: Seq<Seq<char>>, d: Seq<Seq<char>>, v: Seq<Seq<char>>, n: Seq<Seq<char>>|
                #![trigger dict_bytes(a, d, v, n)]
                bytes@ == dict_bytes(a, d, v, n) && 64 * bytes@.len() <= DECODE_LIMIT
                    && a.len() > 0 && d.len() > 0 && v.len() > 0 && n.len() > 0 ==> r is Ok
                    && views(r->Ok_0.adjectives@) == a && views(r->Ok_0.adverbs@) == d
                    && views(r->Ok_0.verbs@) == v && views(r->Ok_0.nouns@) == n,
    {
        match decode_lists(bytes) {
            Ok((a, d, v, o)) => {
                assert(views(a@).len() == a@.len() && views(d@).len() == d@.len());
                assert(views(v@).len() == v@.len() && views(o@).len() == o@.len());
                Dict::from_lists(a, d, v, o)
            },
            Err(_) => Err(DictError::Corrupt),
        }
    }

    /// The bincode encoding of the four lists, in the order adjectives,
    /// adverbs, verbs, nouns.
    pub fn encode(&self) -> (r: Vec<u8>)
        ensures
            r@ == dict_bytes(
                views(self.adjectives@),
                views(self.adverbs@),
                views(self.verbs@),
                views(self.nouns@),
            ),
    {
        match encode_lists(self) {
            Ok(b) => b,
            Err(_) => unreached(),
        }
    }
}

} // verus!
