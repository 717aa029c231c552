//! Numbers as documents hold them.
//!
//! A binary64 number is known by its [`Real::rank`], an integer that orders such numbers; what is
//! computed from its digits (how it is written, whether it is whole) travels beside it as a
//! [`Reading`].
use crate::numeral;
use crate::numeral::{numeral, signed_numeral};
use crate::text::{chars, same};
use vstd::prelude::*;

verus! {

/// The rank of positive infinity; every finite number has a rank of smaller size.
pub const INFINITE: i64 = 0x7ff0_0000_0000_0000;

/// The bit that marks a negative number.
pub const SIGN: u64 = 0x8000_0000_0000_0000;

/// A binary64 number by its place in their order.
///
/// Of numbers that are not NaN, one is smaller than another exactly if its rank is; both zeros
/// have the rank 0. A NaN has a rank beyond that of an infinity.
#[derive(Clone, Copy, Debug, PartialEq, Eq, Structural)]
pub struct Real {
    pub rank: i64,
}

/// The rank of the number with the IEEE 754 representation `bits`.
pub open spec fn rank_of_bits(bits: u64) -> int {
    if bits < SIGN {
        bits as int
    } else {
        SIGN - bits
    }
}

impl Real {
    /// The number with the IEEE 754 representation `bits`.
    pub fn from_bits(bits: u64) -> (number: Self)
        ensures
            number.rank == rank_of_bits(bits),
    {
        if bits < SIGN {
            Real { rank: bits as i64 }
        } else {
            Real { rank: -((bits - SIGN) as i64) }
        }
    }

    /// The IEEE 754 representation of the number; that of the positive zero for a zero.
    pub fn to_bits(self) -> (bits: u64)
        requires
            self.rank > i64::MIN,
        ensures
            rank_of_bits(bits) == self.rank,
            self.rank == 0 ==> bits == 0,
    {
        if self.rank >= 0 {
            self.rank as u64
        } else {
            SIGN + (-self.rank) as u64
        }
    }

    /// Whether the number is not NaN.
    pub open spec fn ordered(self) -> bool {
        -INFINITE <= self.rank <= INFINITE
    }

    /// Whether the number is neither infinite nor NaN.
    pub open spec fn finite(self) -> bool {
        -INFINITE < self.rank < INFINITE
    }

    /// Whether the number is not NaN.
    pub fn is_ordered(self) -> (ordered: bool)
        ensures
            ordered == self.ordered(),
    {
        -INFINITE <= self.rank && self.rank <= INFINITE
    }

    /// Whether the number is neither infinite nor NaN.
    pub fn is_finite(self) -> (finite: bool)
        ensures
            finite == self.finite(),
    {
        -INFINITE < self.rank && self.rank < INFINITE
    }
}

/// Two representations with one rank are the same, or both are zeros.
pub proof fn representation_is_ranked(left: u64, right: u64)
    requires
        rank_of_bits(left) == rank_of_bits(right),
    ensures
        left == right || (rank_of_bits(left) == 0 && (left == 0 || left == SIGN) && (right == 0
            || right == SIGN)),
{
}

/// What the digits of a finite binary64 number show.
pub struct Reading {
    /// The number.
    pub value: Real,
    /// How a document writes it.
    pub text: String,
    /// Rounded to one decimal place.
    pub tenths: String,
    /// Rounded to no decimal place.
    pub units: String,
    /// Its value, where it is whole and lies within the range of `i64` or of `u64`.
    pub whole: Option<i128>,
    /// Whether it has a fraction.
    pub fractional: bool,
}

/// The model of a [`Reading`].
#[verifier::ext_equal]
pub struct ReadingView {
    pub value: Real,
    pub text: Seq<char>,
    pub tenths: Seq<char>,
    pub units: Seq<char>,
    pub whole: Option<i128>,
    pub fractional: bool,
}

impl View for Reading {
    type V = ReadingView;

    open spec fn view(&self) -> ReadingView {
        ReadingView {
            value: self.value,
            text: self.text@,
            tenths: self.tenths@,
            units: self.units@,
            whole: self.whole,
            fractional: self.fractional,
        }
    }
}

impl ReadingView {
    /// The place of the number in the order that tells the zeros apart: the negative zero comes
    /// before the other.
    pub open spec fn place(self) -> int {
        if self.value.rank == 0 && self.text.len() > 0 && self.text[0] == '-' {
            -1
        } else {
            2 * self.value.rank
        }
    }
}

impl Reading {
    /// The place of the number in the order that tells the zeros apart.
    pub fn place(&self) -> (place: i128)
        ensures
            place == self@.place(),
    {
        let characters = chars(self.text.as_str());
        if self.value.rank == 0 && characters.len() > 0 && characters[0] == '-' {
            -1
        } else {
            2 * self.value.rank as i128
        }
    }
}

impl Clone for Reading {
    fn clone(&self) -> (copy: Self)
        ensures
            copy@ == self@,
    {
        Reading {
            value: self.value,
            text: self.text.clone(),
            tenths: self.tenths.clone(),
            units: self.units.clone(),
            whole: self.whole,
            fractional: self.fractional,
        }
    }
}

/// The model of an optional reading.
pub open spec fn optional_reading(reading: Option<Reading>) -> Option<ReadingView> {
    match reading {
        Some(reading) => Some(reading@),
        None => None,
    }
}

/// The largest integer up to which every integer is a binary64 number.
pub const EXACT: u64 = 0x20_0000_0000_0000;

/// The smallest integer whose binary notation fills the digits of a binary64 number.
pub const FULL: u64 = 0x10_0000_0000_0000;

/// How often `value` has to be doubled to reach [`FULL`].
pub open spec fn doublings(value: int) -> int
    decreases EXACT - value,
{
    if value <= 0 || value >= FULL {
        0
    } else {
        1 + doublings(2 * value)
    }
}

/// `value` doubled until it reaches [`FULL`].
pub open spec fn scaled(value: int) -> int
    decreases EXACT - value,
{
    if value <= 0 || value >= FULL {
        value
    } else {
        scaled(2 * value)
    }
}

/// The rank of an integer up to [`EXACT`].
pub open spec fn rank_of_integer(value: int) -> int {
    if value == 0 {
        0
    } else {
        (1074 - doublings(value)) * 0x10_0000_0000_0000 + scaled(value)
    }
}

/// The reading of an integer up to [`EXACT`].
pub open spec fn integer_reading(value: nat) -> ReadingView {
    ReadingView {
        value: Real { rank: rank_of_integer(value as int) as i64 },
        text: numeral::decimal(value) + ".0"@,
        tenths: numeral::decimal(value) + ".0"@,
        units: numeral::decimal(value),
        whole: Some(value as i128),
        fractional: false,
    }
}

/// A number of so many binary digits fills the digits of a binary64 number with so many doublings.
pub proof fn lemma_doublings(value: int, power: nat)
    requires
        power <= 52,
        value >= vstd::arithmetic::power2::pow2(power),
    ensures
        0 <= doublings(value) <= 52 - power,
        value < FULL ==> power < 52,
        value <= EXACT ==> scaled(value) <= EXACT,
    decreases 52 - power,
{
    vstd::arithmetic::power2::lemma2_to64();
    if value < FULL {
        if power == 52 {
            vstd::arithmetic::power2::lemma2_to64_rest();
        } else {
            vstd::arithmetic::power2::lemma_pow2_unfold(power + 1);
            lemma_doublings(2 * value, power + 1);
        }
    }
}

/// The rank of an integer up to [`EXACT`].
pub fn integer_rank(value: u64) -> (rank: i64)
    requires
        value <= EXACT,
    ensures
        rank == rank_of_integer(value as int),
{
    if value == 0 {
        return 0;
    }
    let mut scale: u64 = value;
    let mut steps: u64 = 0;
    proof {
        vstd::arithmetic::power2::lemma2_to64();
        lemma_doublings(value as int, 0);
    }
    while scale < FULL
        invariant
            0 < scale <= EXACT,
            steps <= 52,
            steps + doublings(scale as int) == doublings(value as int),
            0 <= doublings(value as int) <= 52,
            scaled(scale as int) == scaled(value as int),
        decreases EXACT - scale,
    {
        assert(doublings(2 * scale as int) >= 0) by {
            vstd::arithmetic::power2::lemma2_to64();
            lemma_doublings(2 * scale as int, 0);
        }
        scale = 2 * scale;
        steps = steps + 1;
    }
    (1074 - steps as i64) * 0x10_0000_0000_0000i64 + scale as i64
}

/// A number of a document: an integer or a binary64 number.
///
/// An integer carries its reading as a binary64 number; one that the library itself wrote has it
/// where the integer is a binary64 number exactly.
pub enum Number {
    Integer(i128, Option<Reading>),
    Decimal(Reading),
}

/// The model of a [`Number`].
pub enum NumberView {
    Integer(i128, Option<ReadingView>),
    Decimal(ReadingView),
}

impl View for Number {
    type V = NumberView;

    open spec fn view(&self) -> NumberView {
        match self {
            Number::Integer(value, reading) => NumberView::Integer(*value, optional_reading(*reading)),
            Number::Decimal(reading) => NumberView::Decimal(reading@),
        }
    }
}

impl NumberView {
    /// How a document writes the number.
    pub open spec fn text(self) -> Seq<char> {
        match self {
            NumberView::Integer(value, _) => numeral::signed(value as int),
            NumberView::Decimal(reading) => reading.text,
        }
    }

    /// The number read as a binary64 number.
    pub open spec fn reading(self) -> Option<ReadingView> {
        match self {
            NumberView::Integer(_, reading) => reading,
            NumberView::Decimal(reading) => Some(reading),
        }
    }

    /// The number as a natural number of 64 bits, if it is held as an integer in that range.
    pub open spec fn natural(self) -> Option<u64> {
        match self {
            NumberView::Integer(value, _) => if 0 <= value <= u64::MAX {
                Some(value as u64)
            } else {
                None
            },
            NumberView::Decimal(_) => None,
        }
    }

    /// Whether two numbers are equal: as integers, or by value as binary64 numbers.
    pub open spec fn equals(self, other: NumberView) -> bool {
        match (self, other) {
            (NumberView::Integer(left, _), NumberView::Integer(right, _)) => left == right,
            (NumberView::Decimal(left), NumberView::Decimal(right)) => left.value == right.value,
            _ => false,
        }
    }
}

/// The model of the integer `value` as the library writes it.
pub open spec fn written(value: nat) -> NumberView {
    NumberView::Integer(
        value as i128,
        if value <= EXACT {
            Some(integer_reading(value))
        } else {
            None
        },
    )
}

impl Number {
    /// The integer `value`.
    pub fn of(value: u64) -> (number: Self)
        ensures
            number@ == written(value as nat),
    {
        if value <= EXACT {
            let units = numeral(value as u128);
            let reading = Reading {
                value: Real { rank: integer_rank(value) },
                text: units.clone().concat(".0"),
                tenths: units.clone().concat(".0"),
                units,
                whole: Some(value as i128),
                fractional: false,
            };
            assert(reading@ == integer_reading(value as nat));
            Number::Integer(value as i128, Some(reading))
        } else {
            Number::Integer(value as i128, None)
        }
    }

    /// How a document writes the number.
    pub fn text(&self) -> (text: String)
        ensures
            text@ == self@.text(),
    {
        match self {
            Number::Integer(value, _) => signed_numeral(*value),
            Number::Decimal(reading) => reading.text.clone(),
        }
    }

    /// The number read as a binary64 number.
    pub fn reading(&self) -> (reading: Option<&Reading>)
        ensures
            match reading {
                Some(reading) => self@.reading() == Some(reading@),
                None => self@.reading() is None,
            },
    {
        match self {
            Number::Integer(_, Some(reading)) => Some(reading),
            Number::Integer(_, None) => None,
            Number::Decimal(reading) => Some(reading),
        }
    }

    /// The number as a natural number of 64 bits, if it is held as an integer in that range.
    pub fn natural(&self) -> (value: Option<u64>)
        ensures
            value == self@.natural(),
    {
        match self {
            Number::Integer(value, _) => if 0 <= *value && *value <= 0xffff_ffff_ffff_ffff {
                Some(*value as u64)
            } else {
                None
            },
            Number::Decimal(_) => None,
        }
    }

    /// Whether two numbers are equal: as integers, or by value as binary64 numbers.
    pub fn equals(&self, other: &Number) -> (equal: bool)
        ensures
            equal == self@.equals(other@),
    {
        match (self, other) {
            (Number::Integer(left, _), Number::Integer(right, _)) => *left == *right,
            (Number::Decimal(left), Number::Decimal(right)) => left.value.rank == right.value.rank,
            _ => false,
        }
    }
}

impl Clone for Number {
    fn clone(&self) -> (copy: Self)
        ensures
            copy@ == self@,
    {
        match self {
            Number::Integer(value, Some(reading)) => Number::Integer(*value, Some(reading.clone())),
            Number::Integer(value, None) => Number::Integer(*value, None),
            Number::Decimal(reading) => Number::Decimal(reading.clone()),
        }
    }
}

/// What certain texts read as numbers show: `None` where the number is not finite.
///
/// A text that has no entry is no number.
pub struct Readings {
    pub entries: Vec<(String, Option<Reading>)>,
}

/// The model of [`Readings`].
pub type ReadingsView = Seq<(Seq<char>, Option<ReadingView>)>;

impl View for Readings {
    type V = ReadingsView;

    open spec fn view(&self) -> ReadingsView {
        Seq::new(
            self.entries@.len(),
            |i: int| (self.entries@[i].0@, optional_reading(self.entries@[i].1)),
        )
    }
}

/// What `text` shows, by the first entry for it.
pub open spec fn read_from(entries: ReadingsView, text: Seq<char>) -> Option<Option<ReadingView>>
    decreases entries.len(),
{
    if entries.len() == 0 {
        None
    } else if entries[0].0 == text {
        Some(entries[0].1)
    } else {
        read_from(entries.skip(1), text)
    }
}

/// Whether two tables of readings show the same for every text in a list.
pub open spec fn agree(left: ReadingsView, right: ReadingsView, list: Seq<Seq<char>>) -> bool {
    forall|text: Seq<char>| #[trigger]
        list.contains(text) ==> read_from(left, text) == read_from(right, text)
}

impl Readings {
    /// What `text` shows, by the first entry for it.
    pub fn read(&self, text: &str) -> (shown: Option<Option<Reading>>)
        ensures
            match shown {
                Some(reading) => read_from(self@, text@) == Some(optional_reading(reading)),
                None => read_from(self@, text@) is None,
            },
    {
        let ghost all = self@;
        let mut index: usize = 0;
        assert(all.skip(0) =~= all);
        while index < self.entries.len()
            invariant
                index <= self.entries@.len(),
                all == self@,
                read_from(all, text@) == read_from(all.skip(index as int), text@),
            decreases self.entries@.len() - index,
        {
            assert(all.skip(index as int)[0] == all[index as int]);
            if same(self.entries[index].0.as_str(), text) {
                return match &self.entries[index].1 {
                    Some(reading) => Some(Some(reading.clone())),
                    None => Some(None),
                };
            }
            assert(all.skip(index as int).skip(1) =~= all.skip(index + 1));
            index += 1;
        }
        None
    }
}

} // verus!
