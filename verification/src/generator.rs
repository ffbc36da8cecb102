//! The password generator: alphabets of symbols and the algorithm that
//! assembles a password from them.

use vstd::prelude::*;

verus! {

/// A precondition violation reported by [`produce_password`]. All three are
/// detected up front, before any randomness is consumed.
#[derive(Clone, Copy, Debug, PartialEq, Eq, Structural)]
pub enum GenError {
    /// No alphabets were supplied.
    EmptyAlphabetSet,
    /// The requested length is less than the number of alphabets, so there
    /// is no room for one mandatory symbol per alphabet.
    LengthTooShort,
    /// One of the supplied alphabets has zero symbols, which would make the
    /// per-alphabet draw undefined.
    EmptyAlphabet,
}

/// An alphabet is an ordered collection of symbols (duplicates permitted)
/// used as a sampling source when a password is assembled.
pub struct Alphabet {
    symbols: Vec<char>,
}

impl View for Alphabet {
    type V = Seq<char>;

    closed spec fn view(&self) -> Seq<char> {
        self.symbols@
    }
}

impl Alphabet {
    /// Creates a new Alphabet-object with the given symbols, kept in the
    /// order in which they occur in `symbols`.
    pub fn new(symbols: &str) -> (a: Self)
        ensures
            a@ == symbols@,
    {
        let mut v: Vec<char> = Vec::new();
        for c in it: symbols.chars()
            invariant
                v@ == it.seq().take(it.index() as int),
        {
            v.push(c);
        }
        Alphabet { symbols: v }
    }

    /// Returns the stored symbols-sequence.
    pub fn get(&self) -> (r: &Vec<char>)
        ensures
            r@ == self@,
    {
        &self.symbols
    }

    /// Returns the alphabet's length (number of symbols).
    pub fn len(&self) -> (n: usize)
        ensures
            n == self@.len(),
    {
        self.symbols.len()
    }

    /// Returns the n-th symbol from this alphabet. Callers only ever pass
    /// indices below the number of stored symbols.
    pub fn nth(&self, n: usize) -> (c: char)
        requires
            n < self@.len(),
        ensures
            c == self@[n as int],
    {
        self.symbols[n]
    }
}

/// True when some position of `password` holds a symbol of `alphabet`.
pub open spec fn contains_symbol_of(password: Seq<char>, alphabet: Seq<char>) -> bool {
    exists|j: int| 0 <= j < password.len() && alphabet.contains(#[trigger] password[j])
}

/// True when every supplied alphabet contributes at least one of its own
/// symbols to `password`.
pub open spec fn covers_all(alphabets: Seq<Alphabet>, password: Seq<char>) -> bool {
    forall|i: int|
        0 <= i < alphabets.len() ==> contains_symbol_of(password, (#[trigger] alphabets[i])@)
}

/// True when `c` occurs in at least one of the alphabets, i.e. in the
/// union multiset that the fill phase samples from.
pub open spec fn drawn_from(alphabets: Seq<Alphabet>, c: char) -> bool {
    exists|i: int| 0 <= i < alphabets.len() && (#[trigger] alphabets[i])@.contains(c)
}

/// True when every symbol of `password` occurs in one of the alphabets.
pub open spec fn all_drawn_from(alphabets: Seq<Alphabet>, password: Seq<char>) -> bool {
    forall|j: int| 0 <= j < password.len() ==> drawn_from(alphabets, #[trigger] password[j])
}

/// The shape of the working buffer as the two sampling phases leave it:
/// one symbol of each alphabet, in alphabet order, followed by symbols
/// drawn from the union of all alphabets.
pub open spec fn staged_draw(alphabets: Seq<Alphabet>, s: Seq<char>) -> bool {
    &&& alphabets.len() <= s.len()
    &&& forall|i: int| 0 <= i < alphabets.len() ==> (#[trigger] alphabets[i])@.contains(s[i])
    &&& forall|j: int| alphabets.len() <= j < s.len() ==> drawn_from(alphabets, #[trigger] s[j])
}

/// True when every supplied alphabet has at least one symbol.
pub open spec fn all_nonempty(alphabets: Seq<Alphabet>) -> bool {
    forall|i: int| 0 <= i < alphabets.len() ==> (#[trigger] alphabets[i])@.len() > 0
}

/// The precondition of password generation: at least one alphabet, room
/// for one mandatory symbol per alphabet, and no empty alphabet.
pub open spec fn valid_request(length: int, alphabets: Seq<Alphabet>) -> bool {
    &&& alphabets.len() > 0
    &&& alphabets.len() <= length
    &&& all_nonempty(alphabets)
}

/// Relies on String's FromIterator over characters (reached through
/// Iterator::collect): the resulting string's characters are exactly the
/// vector's, in order.
#[verifier::external_body]
fn string_from_chars(v: &Vec<char>) -> (s: String)
    ensures
        s@ == v@,
{
    v.iter().collect()
}

/// Produces a single password from multiple alphabets.
///
/// A successful result has exactly the requested length, contains at
/// least one symbol of every supplied alphabet, holds nothing but symbols
/// of the supplied alphabets, and is a permutation of a buffer built by
/// one uniform draw per alphabet followed by uniform draws from the union
/// of all alphabets. The three precondition violations are reported as
/// errors, each on exactly the stated inputs, before any randomness is
/// consumed.
pub fn produce_password(length: usize, alphabets: &Vec<Alphabet>) -> (r: Result<
    String,
    GenError,
>)
    ensures
        r is Ok <==> valid_request(length as int, alphabets@),
        r == Err::<String, GenError>(GenError::EmptyAlphabetSet) <==> alphabets@.len() == 0,
        r == Err::<String, GenError>(GenError::LengthTooShort) <==> (alphabets@.len() > 0
            && length < alphabets@.len()),
        r == Err::<String, GenError>(GenError::EmptyAlphabet) <==> (alphabets@.len() > 0
            && alphabets@.len() <= length && !all_nonempty(alphabets@)),
        r matches Ok(p) ==> p@.len() == length,
        r matches Ok(p) ==> covers_all(alphabets@, p@),
        r matches Ok(p) ==> all_drawn_from(alphabets@, p@),
        r matches Ok(p) ==> exists|s: Seq<char>|
            staged_draw(alphabets@, s) && s.len() == length && s.to_multiset()
                == p@.to_multiset(),
{
    if alphabets.len() < 1 {
        return Err(GenError::EmptyAlphabetSet);
    }
    if length < alphabets.len() {
        return Err(GenError::LengthTooShort);
    }
    let n = alphabets.len();
    for i in 0..n
        invariant
            n == alphabets@.len(),
            0 < n <= length,
            forall|k: int| 0 <= k < i ==> (#[trigger] alphabets@[k])@.len() > 0,
    {
        if alphabets[i].len() == 0 {
            return Err(GenError::EmptyAlphabet);
        }
    }
    let mut rng = crate::random::fresh_rng();

    // Coverage phase: one uniform draw from each alphabet, in input order.
    let mut password: Vec<char> = Vec::new();
    for i in 0..n
        invariant
            n == alphabets@.len(),
            all_nonempty(alphabets@),
            password@.len() == i,
            forall|k: int| 0 <= k < i ==> (#[trigger] alphabets@[k])@.contains(password@[k]),
    {
        let idx = crate::random::draw_index(&mut rng, alphabets[i].len());
        password.push(alphabets[i].nth(idx));
    }

    // Union of all alphabets, concatenated in alphabet order with
    // duplicates preserved, as the fill phase's sampling source.
    let mut symbols: Vec<char> = Vec::new();
    for i in 0..n
        invariant
            n == alphabets@.len(),
            all_nonempty(alphabets@),
            i <= symbols@.len(),
            forall|j: int|
                0 <= j < symbols@.len() ==> drawn_from(alphabets@, #[trigger] symbols@[j]),
    {
        let abc = &alphabets[i];
        let m = abc.len();
        let ghost base = symbols@.len();
        for j in 0..m
            invariant
                n == alphabets@.len(),
                i < n,
                0 < m == abc@.len(),
                abc@ == alphabets@[i as int]@,
                symbols@.len() == base + j,
                forall|k: int|
                    0 <= k < symbols@.len() ==> drawn_from(alphabets@, #[trigger] symbols@[k]),
        {
            let c = abc.nth(j);
            proof {
                assert(alphabets@[i as int]@.contains(abc@[j as int]));
            }
            symbols.push(c);
        }
    }

    // Fill phase: uniform draws from the union until the requested length
    // is reached.
    while password.len() < length
        invariant
            n == alphabets@.len(),
            n <= password@.len() <= length,
            symbols@.len() > 0,
            forall|j: int|
                0 <= j < symbols@.len() ==> drawn_from(alphabets@, #[trigger] symbols@[j]),
            forall|k: int| 0 <= k < n ==> (#[trigger] alphabets@[k])@.contains(password@[k]),
            forall|j: int|
                n <= j < password@.len() ==> drawn_from(alphabets@, #[trigger] password@[j]),
        decreases length - password.len(),
    {
        let idx = crate::random::draw_index(&mut rng, symbols.len());
        password.push(symbols[idx]);
    }

    // Shuffle phase: permute the buffer so the mandatory coverage symbols
    // are not clustered at the front.
    let ghost staged = password@;
    crate::random::shuffle(&mut rng, &mut password);
    proof {
        lemma_staged_covers(alphabets@, staged);
        lemma_permutation_keeps_coverage(alphabets@, staged, password@);
        lemma_permutation_keeps_drawn_from(alphabets@, staged, password@);
    }
    Ok(string_from_chars(&password))
}

/// Law: a staged buffer already covers every alphabet, and holds only
/// symbols of the alphabets — position `i` of the coverage phase holds a
/// symbol of alphabet `i`, and the fill phase draws from the union.
pub proof fn lemma_staged_covers(alphabets: Seq<Alphabet>, s: Seq<char>)
    requires
        staged_draw(alphabets, s),
    ensures
        covers_all(alphabets, s),
        all_drawn_from(alphabets, s),
{
    assert forall|i: int| 0 <= i < alphabets.len() implies contains_symbol_of(
        s,
        (#[trigger] alphabets[i])@,
    ) by {
        assert(alphabets[i]@.contains(s[i]));
    }
    assert forall|j: int| 0 <= j < s.len() implies drawn_from(alphabets, #[trigger] s[j]) by {
        if j < alphabets.len() {
            assert(alphabets[j]@.contains(s[j]));
        }
    }
}

/// Law: at the boundary where the requested length equals the number of
/// alphabets, the staged buffer consists of the coverage draws alone —
/// one symbol per alphabet, in alphabet order — and any permutation of it
/// keeps that length, still covers every alphabet, and holds nothing but
/// symbols of the alphabets.
pub proof fn lemma_boundary_one_symbol_per_alphabet(
    alphabets: Seq<Alphabet>,
    s: Seq<char>,
    p: Seq<char>,
)
    requires
        staged_draw(alphabets, s),
        s.len() == alphabets.len(),
        s.to_multiset() == p.to_multiset(),
    ensures
        p.len() == alphabets.len(),
        covers_all(alphabets, p),
        all_drawn_from(alphabets, p),
{
    broadcast use vstd::seq_lib::group_to_multiset_ensures;

    assert(s.to_multiset().len() == s.len());
    assert(p.to_multiset().len() == p.len());
    lemma_staged_covers(alphabets, s);
    lemma_permutation_keeps_coverage(alphabets, s, p);
    lemma_permutation_keeps_drawn_from(alphabets, s, p);
}

/// Law: shuffling cannot lose coverage — any rearrangement of a password
/// that contains a symbol of each alphabet still contains a symbol of
/// each alphabet.
pub proof fn lemma_permutation_keeps_coverage(
    alphabets: Seq<Alphabet>,
    s: Seq<char>,
    p: Seq<char>,
)
    requires
        s.to_multiset() == p.to_multiset(),
        covers_all(alphabets, s),
    ensures
        covers_all(alphabets, p),
{
    broadcast use vstd::seq_lib::group_to_multiset_ensures;

    assert forall|i: int| 0 <= i < alphabets.len() implies contains_symbol_of(
        p,
        (#[trigger] alphabets[i])@,
    ) by {
        let j = choose|j: int| 0 <= j < s.len() && alphabets[i]@.contains(#[trigger] s[j]);
        assert(s.contains(s[j]));
        assert(p.to_multiset().count(s[j]) > 0);
        assert(p.contains(s[j]));
        let k = choose|k: int| 0 <= k < p.len() && p[k] == s[j];
        assert(alphabets[i]@.contains(p[k]));
    }
}

/// Law: shuffling cannot introduce foreign symbols — any rearrangement of
/// a password drawn entirely from the alphabets is still drawn entirely
/// from the alphabets.
pub proof fn lemma_permutation_keeps_drawn_from(
    alphabets: Seq<Alphabet>,
    s: Seq<char>,
    p: Seq<char>,
)
    requires
        s.to_multiset() == p.to_multiset(),
        all_drawn_from(alphabets, s),
    ensures
        all_drawn_from(alphabets, p),
{
    broadcast use vstd::seq_lib::group_to_multiset_ensures;

    assert forall|k: int| 0 <= k < p.len() implies drawn_from(alphabets, #[trigger] p[k]) by {
        assert(p.contains(p[k]));
        assert(s.to_multiset().count(p[k]) > 0);
        assert(s.contains(p[k]));
        let j = choose|j: int| 0 <= j < s.len() && s[j] == p[k];
        assert(drawn_from(alphabets, s[j]));
    }
}

} // verus!
