//! The vocabulary of a judgment: the options a Choice offers, and how sure an
//! answer is.
use crate::text::{push_decimal, decimal};
use vstd::prelude::*;

verus! {

/// The most options a single Choice may carry, per the API reference.
pub const MAX_OPTIONS: usize = 255;

/// Names one option of a Choice, rendered on the wire as `A1`, `A2`, ...
///
/// A `u8` is exactly the range the endpoint accepts, so an id that cannot be
/// built is a request that would be rejected.
#[derive(Debug, Clone, Copy, PartialEq, Eq, Structural, PartialOrd, Ord, Hash)]
pub struct OptionId(u8);

/// The number an option id's spelling `raw` carries: `A`, then a number that
/// fits in a byte.
pub open spec fn option_number(raw: Seq<char>) -> Option<int> {
    if raw.len() > 0 && raw[0] == 'A' {
        match crate::text::parse_natural(raw.drop_first()) {
            Some(v) if 0 <= v <= u8::MAX => Some(v),
            _ => None,
        }
    } else {
        None
    }
}

/// The wire spelling of the option numbered `n`: `A` then its number.
pub open spec fn option_name(n: int) -> Seq<char> {
    seq!['A'] + decimal(n as nat)
}

impl OptionId {
    /// The number this id carries, counting from one.
    pub closed spec fn number(self) -> int {
        self.0 as int
    }

    /// The id for the nth option, counting from zero.
    ///
    /// `None` for the one index that has no id: ids start at `A1`, so the last
    /// addressable position is `u8::MAX - 1`.
    pub fn nth(index: u8) -> (r: Option<OptionId>)
        ensures
            index < 255 <==> r is Some,
            r matches Some(id) ==> id.number() == index + 1,
    {
        if index < 255 {
            Some(OptionId(index + 1))
        } else {
            None
        }
    }

    /// The number this id carries, counting from one.
    pub fn get(&self) -> (n: u8)
        ensures
            n == self.number(),
    {
        self.0
    }

    /// The wire spelling: `A1`, `A2`, ...
    pub fn to_string(&self) -> (s: String)
        ensures
            s@ == option_name(self.number()),
    {
        let mut s = String::new();
        s.push('A');
        push_decimal(&mut s, self.0 as u64);
        assert(s@ =~= option_name(self.number()));
        s
    }


    /// Read an id back from its wire spelling: `A` followed by a number that
    /// fits in a byte.
    pub fn parse(raw: &str) -> (r: Option<OptionId>)
        ensures
            r is Some <==> option_number(raw@) is Some,
            r matches Some(id) ==> id.number() == option_number(raw@)->0,
    {
        let chars = crate::text::chars_of(raw);
        if chars.len() == 0 || chars[0] != 'A' {
            return None;
        }
        let v = crate::text::natural_between(chars.as_slice(), 1, chars.len(), 255);
        assert(chars@.subrange(1, chars@.len() as int) =~= chars@.drop_first());
        proof {
            crate::text::lemma_parse_natural_nonneg(chars@.drop_first());
        }
        match v {
            Some(n) => Some(OptionId(n as u8)),
            None => None,
        }
    }
}

/// Every option's wire spelling reads back as the option it names: an id
/// written out by `to_string` is the id `parse` returns for it.
pub proof fn option_names_read_back(id: OptionId)
    ensures
        option_number(option_name(id.number())) == Some(id.number()),
{
    let n = id.number();
    crate::text::lemma_decimal_reads_back(n as nat);
    assert(option_name(n).drop_first() =~= decimal(n as nat));
}

/// The Choice already holds [`MAX_OPTIONS`] options.
#[derive(Debug, Clone, Copy, PartialEq, Eq, Structural)]
pub struct Full;

impl Full {
    /// What this refusal says: the limit it ran into.
    pub fn message(&self) -> (s: String)
        ensures
            s@ == "a Choice may offer at most "@ + decimal(MAX_OPTIONS as nat) + " options"@,
    {
        let mut s = String::from_str("a Choice may offer at most ");
        push_decimal(&mut s, MAX_OPTIONS as u64);
        crate::text::push_str(&mut s, " options");
        s
    }
}

/// The options of a Choice, in the order they will be presented.
///
/// Insertion order is preserved all the way to the wire; a keyed map would
/// sort them and silently reorder a list the model reads positionally.
#[derive(Debug, Clone, Default)]
pub struct Options(Vec<(String, String)>);

/// The characters of each key and rubric in a list of options.
pub open spec fn option_texts(v: Seq<(String, String)>) -> Seq<(Seq<char>, Seq<char>)> {
    v.map_values(|p: (String, String)| (p.0@, p.1@))
}

impl View for Options {
    type V = Seq<(Seq<char>, Seq<char>)>;

    closed spec fn view(&self) -> Seq<(Seq<char>, Seq<char>)> {
        option_texts(self.0@)
    }
}

impl Options {
    /// No options yet.
    pub fn new() -> (o: Options)
        ensures
            o@.len() == 0,
    {
        let o = Options(Vec::new());
        assert(o@ =~= Seq::<(Seq<char>, Seq<char>)>::empty());
        o
    }

    /// Offer one more element, addressed positionally.
    ///
    /// Refused with [`Full`] once [`MAX_OPTIONS`] have been offered.
    pub fn push(&mut self, rubric: String) -> (r: Result<OptionId, Full>)
        ensures
            old(self)@.len() < MAX_OPTIONS <==> r is Ok,
            r matches Ok(id) ==> {
                &&& id.number() == old(self)@.len() + 1
                &&& final(self)@ == old(self)@.push((option_name(id.number()), rubric@))
            },
            r is Err ==> final(self)@ == old(self)@,
    {
        if self.0.len() >= MAX_OPTIONS {
            return Err(Full);
        }
        let id = OptionId((self.0.len() + 1) as u8);
        let ghost before = self.0@;
        self.0.push((id.to_string(), rubric));
        assert(option_texts(self.0@) =~= option_texts(before).push(
            (option_name(id.number()), self.0@.last().1@),
        ));
        Ok(id)
    }

    /// Offer one more option under a name of its own.
    ///
    /// Refused with [`Full`] once [`MAX_OPTIONS`] have been offered.
    pub fn push_named(&mut self, key: String, rubric: String) -> (r: Result<(), Full>)
        ensures
            old(self)@.len() < MAX_OPTIONS <==> r is Ok,
            r is Ok ==> final(self)@ == old(self)@.push((key@, rubric@)),
            r is Err ==> final(self)@ == old(self)@,
    {
        if self.0.len() >= MAX_OPTIONS {
            return Err(Full);
        }
        let ghost before = self.0@;
        let ghost pair = (key@, rubric@);
        self.0.push((key, rubric));
        assert(option_texts(self.0@) =~= option_texts(before).push(pair));
        Ok(())
    }

    /// How many options have been offered.
    pub fn len(&self) -> (n: usize)
        ensures
            n == self@.len(),
    {
        self.0.len()
    }

    /// Whether no options have been offered.
    pub fn is_empty(&self) -> (r: bool)
        ensures
            r == (self@.len() == 0),
    {
        self.0.len() == 0
    }

    /// Every option, key first, in the order offered.
    pub fn entries(&self) -> (r: Vec<(String, String)>)
        ensures
            option_texts(r@) == self@,
    {
        let mut r: Vec<(String, String)> = Vec::new();
        let mut i: usize = 0;
        while i < self.0.len()
            invariant
                i <= self.0@.len(),
                r@.len() == i,
                forall|k: int|
                    0 <= k < i ==> (#[trigger] r@[k]).0@ == self.0@[k].0@ && r@[k].1@
                        == self.0@[k].1@,
            decreases self.0@.len() - i,
        {
            r.push((self.0[i].0.clone(), self.0[i].1.clone()));
            i = i + 1;
        }
        assert(option_texts(r@) =~= option_texts(self.0@));
        r
    }

    /// The same options, held separately.
    pub fn duplicate(&self) -> (o: Options)
        ensures
            o@ == self@,
    {
        Options(self.entries())
    }
}

/// What a yes and a no mean for a yes-or-no judgment.
#[derive(Debug, Clone, PartialEq, Eq)]
pub struct Poles {
    /// What a yes means.
    pub yes: String,
    /// What a no means.
    pub no: String,
}

/// A question the model is asked to answer, with the instructions `I` it
/// is asked under.
#[derive(Debug)]
pub enum Question<I> {
    /// A yes-or-no judgment.
    Noul {
        /// The question being asked.
        instructions: I,
        /// What a yes and a no mean.
        criteria: Poles,
    },
    /// A selection among defined options.
    Choice {
        /// The question being asked.
        instructions: I,
        /// The options to choose between.
        criteria: Options,
    },
}

/// The bit pattern of `1.0` as an IEEE double.
pub const ONE_BITS: u64 = 0x3FF0_0000_0000_0000;

/// The bit pattern of `-0.0` as an IEEE double.
pub const NEGATIVE_ZERO_BITS: u64 = 0x8000_0000_0000_0000;

/// How certain a distribution is, constrained to the unit interval.
///
/// Held as the bit pattern of the IEEE double it was read from. Over the unit
/// interval that pattern orders exactly as the number does, so every
/// comparison a floor makes is a comparison of these patterns, and no
/// arithmetic on the number is ever needed.
#[derive(Debug, Clone, Copy, PartialEq, Eq, Structural, PartialOrd, Ord, Hash)]
pub struct Confidence(u64);

impl Confidence {
    /// The bit pattern of the number, which orders as the number does.
    pub closed spec fn level(self) -> int {
        self.0 as int
    }

    /// The confidence whose bit pattern is `bits`.
    pub closed spec fn with_level(bits: u64) -> Confidence {
        Confidence(bits)
    }

    /// A confidence is its bit pattern: two with the same level are one.
    pub proof fn lemma_level(a: Confidence, bits: u64)
        ensures
            Confidence::with_level(bits).level() == bits,
            a.level() == bits ==> a == Confidence::with_level(bits),
    {
    }

    /// Every confidence lies in the unit interval.
    #[verifier::type_invariant]
    closed spec fn in_unit_interval(self) -> bool {
        self.0 <= ONE_BITS
    }

    /// Build a confidence from the bit pattern of a double, rejecting any
    /// number outside `0.0..=1.0` (NaN included). Negative zero is zero.
    pub fn from_bits(bits: u64) -> (r: Option<Confidence>)
        ensures
            (bits <= ONE_BITS || bits == NEGATIVE_ZERO_BITS) <==> r is Some,
            r matches Some(c) ==> c.level() == if bits == NEGATIVE_ZERO_BITS {
                0
            } else {
                bits as int
            },
    {
        if bits == NEGATIVE_ZERO_BITS {
            Some(Confidence(0))
        } else if bits <= ONE_BITS {
            Some(Confidence(bits))
        } else {
            None
        }
    }

    /// No floor at all: any answer is certain enough to act on.
    pub fn zero() -> (c: Confidence)
        ensures
            c.level() == 0,
    {
        Confidence(0)
    }

    /// The bit pattern of the number, for reading it back as a double.
    pub fn bits(self) -> (b: u64)
        ensures
            b == self.level(),
            b <= ONE_BITS,
    {
        proof {
            use_type_invariant(self);
        }
        self.0
    }

    /// Whether this is less certain than `other`.
    pub fn below(self, other: Confidence) -> (r: bool)
        ensures
            r == (self.level() < other.level()),
    {
        self.0 < other.0
    }

    /// Whichever of the two is more certain.
    pub fn at_least(self, other: Confidence) -> (r: Confidence)
        ensures
            r.level() == if self.level() > other.level() {
                self.level()
            } else {
                other.level()
            },
    {
        if self.0 > other.0 {
            self
        } else {
            other
        }
    }
}

/// The answer to a Choice, as far as a decision reads it.
#[derive(Debug, Clone, Copy, PartialEq, Eq, Structural)]
pub struct Chosen {
    /// The highest-probability option.
    pub choice: OptionId,
    /// How concentrated the distribution was.
    pub confidence: Confidence,
}

} // verus!
