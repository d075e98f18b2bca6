//! Positions and durations on a disc, counted in minutes, seconds and frames.

use crate::share::text::{
    decimal_string, decimal_text, digit_char, lemma_two_digit_text, two_digit_string,
    two_digit_text,
};
use std::cmp::Ordering;
use vstd::prelude::*;
use vstd::std_specs::cmp::PartialOrdSpecImpl;
use vstd::std_specs::ops::AddSpecImpl;

verus! {

/// Minutes run from 0 up to, not including, this bound.
pub const MAX_MINUTE: u8 = 80;

/// Seconds run from 0 up to, not including, this bound.
pub const MAX_SECOND: u8 = 60;

/// Frames run from 0 up to, not including, this bound.
pub const MAX_FRAME: u8 = 75;

/// One of the three units of a time.
#[derive(Debug, Clone, Copy, PartialEq, Eq, Structural)]
pub enum TimeField {
    Minute,
    Second,
    Frame,
}

/// Why a time could not be made.
#[derive(Debug, Clone, Copy, PartialEq, Eq, Structural)]
pub enum TimeError {
    /// The sequence of numbers did not hold exactly three of them.
    Length,
    /// The named unit was not below its bound.
    Range(TimeField),
}

/// The mathematical model of a time: its three numbers.
pub struct Msf {
    pub minute: nat,
    pub second: nat,
    pub frame: nat,
}

/// A time whose units are all below their bounds.
#[derive(Debug, Clone, Copy, PartialEq, Eq, Structural)]
pub struct Time {
    minute: u8,
    second: u8,
    frame: u8,
}

/// What renders itself as `MM:SS:FF`.
///
/// `msf_text` names the text, so that whoever holds such a value can say
/// what its rendering is. A type that implements the trait outside verified
/// code owes what the contract says: `to_msf_string` depends on the value
/// alone.
pub trait TimeFormatter {
    /// The text that `to_msf_string` returns.
    spec fn msf_text(&self) -> Seq<char>;

    fn to_msf_string(&self) -> (text: String)
        ensures
            text@ == self.msf_text(),
    ;
}

/// What can be tested for zero and added up with a limit.
///
/// The two spec functions name what the two methods return; a type that
/// implements the trait outside verified code owes that both depend on
/// their arguments alone.
pub trait TimeArithmetic: Sized {
    /// Whether this is the time of no length.
    spec fn is_zero_time(&self) -> bool;

    /// The sum of two times, where it is within the limit.
    spec fn sum_with(&self, other: &Self) -> Option<Self>;

    fn is_zero(&self) -> (zero: bool)
        ensures
            zero == self.is_zero_time(),
    ;

    fn checked_add(&self, other: &Self) -> (sum: Option<Self>)
        ensures
            sum == self.sum_with(other),
    ;
}

/// The bound of a unit.
pub open spec fn bound_of(field: TimeField) -> nat {
    match field {
        TimeField::Minute => MAX_MINUTE as nat,
        TimeField::Second => MAX_SECOND as nat,
        TimeField::Frame => MAX_FRAME as nat,
    }
}

/// The name of a unit.
pub open spec fn name_of(field: TimeField) -> Seq<char> {
    match field {
        TimeField::Minute => "minute"@,
        TimeField::Second => "second"@,
        TimeField::Frame => "frame"@,
    }
}

/// All three units are below their bounds.
pub open spec fn in_range(msf: Msf) -> bool {
    &&& msf.minute < MAX_MINUTE
    &&& msf.second < MAX_SECOND
    &&& msf.frame < MAX_FRAME
}

/// The three numbers as a time, or the first unit, in the order minute,
/// second, frame, that is out of range.
pub open spec fn checked_msf(minute: nat, second: nat, frame: nat) -> Result<Msf, TimeError> {
    if minute >= MAX_MINUTE {
        Err(TimeError::Range(TimeField::Minute))
    } else if second >= MAX_SECOND {
        Err(TimeError::Range(TimeField::Second))
    } else if frame >= MAX_FRAME {
        Err(TimeError::Range(TimeField::Frame))
    } else {
        Ok(Msf { minute, second, frame })
    }
}

/// A sequence of exactly three numbers as a time.
pub open spec fn msf_of_sequence(numbers: Seq<u8>) -> Result<Msf, TimeError> {
    if numbers.len() != 3 {
        Err(TimeError::Length)
    } else {
        checked_msf(numbers[0] as nat, numbers[1] as nat, numbers[2] as nat)
    }
}

/// The frames from zero up to this time.
pub open spec fn frame_count(msf: Msf) -> nat {
    msf.minute * MAX_SECOND as nat * MAX_FRAME as nat + msf.second * MAX_FRAME as nat + msf.frame
}

/// The number of frames that no time reaches.
pub open spec fn frame_limit() -> nat {
    MAX_MINUTE as nat * MAX_SECOND as nat * MAX_FRAME as nat
}

/// The sum of two times in range, unit by unit: frames that reach their
/// bound carry one second, seconds that reach theirs carry one minute, and
/// minutes that reach theirs are an error.
pub open spec fn msf_sum(a: Msf, b: Msf) -> Result<Msf, TimeError> {
    let second_carry: nat = if a.frame + b.frame >= MAX_FRAME { 1 } else { 0 };
    let seconds = a.second + b.second + second_carry;
    let minute_carry: nat = if seconds >= MAX_SECOND { 1 } else { 0 };
    checked_msf(
        a.minute + b.minute + minute_carry,
        (seconds - minute_carry * MAX_SECOND) as nat,
        (a.frame + b.frame - second_carry * MAX_FRAME) as nat,
    )
}

/// `MM:SS:FF`, each number at least two digits wide.
pub open spec fn rendered_msf(msf: Msf) -> Seq<char> {
    two_digit_text(msf.minute) + seq![':'] + two_digit_text(msf.second) + seq![':']
        + two_digit_text(msf.frame)
}

/// The model of what a fallible constructor returns.
pub open spec fn viewed(result: Result<Time, TimeError>) -> Result<Msf, TimeError> {
    match result {
        Ok(time) => Ok(time@),
        Err(error) => Err(error),
    }
}

/// Numbers within the bounds make a time, and it renders as `MM:SS:FF` with
/// exactly two digits for each unit. Numbers beyond the bounds make no
/// time, and the error names the first unit, in the order minute, second,
/// frame, that is out of range.
pub proof fn lemma_construct_then_render(minute: u8, second: u8, frame: u8)
    ensures
        match checked_msf(minute as nat, second as nat, frame as nat) {
            Ok(msf) => {
                &&& minute < MAX_MINUTE && second < MAX_SECOND && frame < MAX_FRAME
                &&& msf == Msf { minute: minute as nat, second: second as nat, frame: frame as nat }
                &&& rendered_msf(msf) == seq![
                    digit_char(minute as nat / 10),
                    digit_char(minute as nat % 10),
                    ':',
                    digit_char(second as nat / 10),
                    digit_char(second as nat % 10),
                    ':',
                    digit_char(frame as nat / 10),
                    digit_char(frame as nat % 10),
                ]
            },
            Err(error) => {
                &&& minute >= MAX_MINUTE ==> error == TimeError::Range(TimeField::Minute)
                &&& minute < MAX_MINUTE && second >= MAX_SECOND ==> error == TimeError::Range(
                    TimeField::Second,
                )
                &&& minute < MAX_MINUTE && second < MAX_SECOND ==> frame >= MAX_FRAME && error
                    == TimeError::Range(TimeField::Frame)
            },
        },
{
    if let Ok(msf) = checked_msf(minute as nat, second as nat, frame as nat) {
        lemma_two_digit_text(minute as nat);
        lemma_two_digit_text(second as nat);
        lemma_two_digit_text(frame as nat);
        assert(rendered_msf(msf) =~= seq![
            digit_char(minute as nat / 10),
            digit_char(minute as nat % 10),
            ':',
            digit_char(second as nat / 10),
            digit_char(second as nat % 10),
            ':',
            digit_char(frame as nat / 10),
            digit_char(frame as nat % 10),
        ]);
    }
}

/// Two times in range with the same frame count are the same time.
pub proof fn lemma_frame_count_is_injective(a: Msf, b: Msf)
    requires
        in_range(a),
        in_range(b),
        frame_count(a) == frame_count(b),
    ensures
        a == b,
{
    assert(a.minute == b.minute && a.second == b.second && a.frame == b.frame) by (nonlinear_arith)
        requires
            a.minute * 4500 + a.second * 75 + a.frame == b.minute * 4500 + b.second * 75 + b.frame,
            a.second < 60,
            a.frame < 75,
            b.second < 60,
            b.frame < 75,
    ;
}

/// Adding times adds their frame counts, and fails exactly when the sum
/// reaches the limit, always by the minute.
pub proof fn lemma_sum_adds_frame_counts(a: Msf, b: Msf)
    requires
        in_range(a),
        in_range(b),
    ensures
        msf_sum(a, b) is Ok <==> frame_count(a) + frame_count(b) < frame_limit(),
        msf_sum(a, b) matches Ok(sum) ==> in_range(sum) && frame_count(sum) == frame_count(a)
            + frame_count(b),
        msf_sum(a, b) matches Err(error) ==> error == TimeError::Range(TimeField::Minute),
{
}

/// The sum of three times, the first two added first.
pub open spec fn msf_sum_left(a: Msf, b: Msf, c: Msf) -> Result<Msf, TimeError> {
    match msf_sum(a, b) {
        Ok(front) => msf_sum(front, c),
        Err(error) => Err(error),
    }
}

/// The sum of three times, the last two added first.
pub open spec fn msf_sum_right(a: Msf, b: Msf, c: Msf) -> Result<Msf, TimeError> {
    match msf_sum(b, c) {
        Ok(back) => msf_sum(a, back),
        Err(error) => Err(error),
    }
}

/// Adding is associative and commutative, carries and failures included.
pub proof fn lemma_sum_is_associative_and_commutative(a: Msf, b: Msf, c: Msf)
    requires
        in_range(a),
        in_range(b),
        in_range(c),
    ensures
        msf_sum(a, b) == msf_sum(b, a),
        msf_sum_left(a, b, c) == msf_sum_right(a, b, c),
{
    lemma_sum_adds_frame_counts(a, b);
    lemma_sum_adds_frame_counts(b, a);
    lemma_sum_adds_frame_counts(b, c);
    if let Ok(front) = msf_sum(a, b) {
        lemma_sum_adds_frame_counts(front, c);
    }
    if let Ok(back) = msf_sum(b, c) {
        lemma_sum_adds_frame_counts(a, back);
    }
    if let Ok(left) = msf_sum_left(a, b, c) {
        if let Ok(right) = msf_sum_right(a, b, c) {
            lemma_frame_count_is_injective(left, right);
        }
    }
}

impl TimeError {
    /// The message of this error.
    pub open spec fn text(self) -> Seq<char> {
        match self {
            TimeError::Length => "length of time_vec must be 3"@,
            TimeError::Range(field) => name_of(field) + " must be >=0 and <"@ + decimal_text(
                bound_of(field),
            ),
        }
    }

    /// The message of this error, for a person to read.
    pub fn message(&self) -> (message: String)
        ensures
            message@ == self.text(),
    {
        match self {
            TimeError::Length => String::from_str("length of time_vec must be 3"),
            TimeError::Range(field) => {
                let (name, bound) = match field {
                    TimeField::Minute => ("minute", MAX_MINUTE),
                    TimeField::Second => ("second", MAX_SECOND),
                    TimeField::Frame => ("frame", MAX_FRAME),
                };
                let mut message = String::from_str(name);
                message.append(" must be >=0 and <");
                message.append(decimal_string(bound as usize).as_str());
                message
            },
        }
    }
}

impl View for Time {
    type V = Msf;

    closed spec fn view(&self) -> Msf {
        Msf { minute: self.minute as nat, second: self.second as nat, frame: self.frame as nat }
    }
}

impl Time {
    /// Every time that exists is in range.
    #[verifier::type_invariant]
    spec fn within_bounds(&self) -> bool {
        in_range(self@)
    }

    /// The time with the given numbers, where they fit in a byte each.
    pub closed spec fn of(msf: Msf) -> Time {
        Time { minute: msf.minute as u8, second: msf.second as u8, frame: msf.frame as u8 }
    }

    /// Two times with the same numbers are the same time, and `of` finds it.
    pub proof fn lemma_of_view(self)
        ensures
            Time::of(self@) == self,
    {
    }

    /// `of` gives a time with the numbers asked for.
    pub proof fn lemma_view_of(msf: Msf)
        requires
            in_range(msf),
        ensures
            Time::of(msf)@ == msf,
    {
    }

    /// The time with these numbers, if each is below its bound.
    pub fn new(minute: u8, second: u8, frame: u8) -> (result: Result<Time, TimeError>)
        ensures
            viewed(result) == checked_msf(minute as nat, second as nat, frame as nat),
    {
        if minute >= MAX_MINUTE {
            return Err(TimeError::Range(TimeField::Minute));
        }
        if second >= MAX_SECOND {
            return Err(TimeError::Range(TimeField::Second));
        }
        if frame >= MAX_FRAME {
            return Err(TimeError::Range(TimeField::Frame));
        }
        Ok(Time { minute, second, frame })
    }

    /// The time of no length.
    pub fn zero() -> (time: Time)
        ensures
            time@ == (Msf { minute: 0, second: 0, frame: 0 }),
    {
        Time { minute: 0, second: 0, frame: 0 }
    }

    /// The time whose minute, second and frame are the three numbers of
    /// `time_vec`. The length is looked at before the numbers.
    pub fn from_vec(time_vec: &Vec<u8>) -> (result: Result<Time, TimeError>)
        ensures
            viewed(result) == msf_of_sequence(time_vec@),
            time_vec@.len() != 3 ==> result == Err::<Time, TimeError>(TimeError::Length),
    {
        if time_vec.len() != 3 {
            return Err(TimeError::Length);
        }
        Time::new(time_vec[0], time_vec[1], time_vec[2])
    }

    /// The frames from zero up to this time.
    pub fn to_frame(&self) -> (frames: u32)
        ensures
            frames == frame_count(self@),
            frames < frame_limit(),
    {
        proof {
            use_type_invariant(self);
        }
        let minute: u32 = self.minute as u32;
        let second: u32 = self.second as u32;
        let frame: u32 = self.frame as u32;
        minute * 4500 + second * 75 + frame
    }
}

impl TimeFormatter for Time {
    open spec fn msf_text(&self) -> Seq<char> {
        rendered_msf(self@)
    }

    fn to_msf_string(&self) -> (text: String) {
        let mut text = two_digit_string(self.minute as usize);
        proof {
            reveal_strlit(":");
            assert(":"@ =~= seq![':']);
        }
        text.append(":");
        text.append(two_digit_string(self.second as usize).as_str());
        text.append(":");
        text.append(two_digit_string(self.frame as usize).as_str());
        text
    }
}

impl std::ops::Add for Time {
    type Output = Result<Time, TimeError>;

    fn add(self, other: Time) -> (result: Result<Time, TimeError>)
        ensures
            viewed(result) == msf_sum(self@, other@),
    {
        proof {
            use_type_invariant(&self);
            use_type_invariant(&other);
        }
        let mut minute: u8 = self.minute + other.minute;
        let mut second: u8 = self.second + other.second;
        let mut frame: u8 = self.frame + other.frame;
        if frame >= MAX_FRAME {
            frame -= MAX_FRAME;
            second += 1;
        }
        if second >= MAX_SECOND {
            second -= MAX_SECOND;
            minute += 1;
        }
        Time::new(minute, second, frame)
    }
}

impl AddSpecImpl for Time {
    open spec fn obeys_add_spec() -> bool {
        true
    }

    open spec fn add_req(self, other: Time) -> bool {
        true
    }

    open spec fn add_spec(self, other: Time) -> Result<Time, TimeError> {
        match msf_sum(self@, other@) {
            Ok(msf) => Ok(Time::of(msf)),
            Err(error) => Err(error),
        }
    }
}

impl TimeArithmetic for Time {
    open spec fn is_zero_time(&self) -> bool {
        frame_count(self@) == 0
    }

    open spec fn sum_with(&self, other: &Time) -> Option<Time> {
        match msf_sum(self@, other@) {
            Ok(msf) => Some(Time::of(msf)),
            Err(_) => None,
        }
    }

    fn is_zero(&self) -> (zero: bool) {
        self.minute == 0 && self.second == 0 && self.frame == 0
    }

    fn checked_add(&self, other: &Time) -> (sum: Option<Time>)
        ensures
            sum matches Some(time) ==> msf_sum(self@, other@) == Ok::<Msf, TimeError>(time@),
            sum is None ==> msf_sum(self@, other@) is Err,
    {
        match *self + *other {
            Ok(time) => Some(time),
            Err(_) => None,
        }
    }
}

impl PartialOrd for Time {
    fn partial_cmp(&self, other: &Time) -> (order: Option<Ordering>) {
        let mine = self.to_frame();
        let theirs = other.to_frame();
        if mine < theirs {
            Some(Ordering::Less)
        } else if mine == theirs {
            Some(Ordering::Equal)
        } else {
            Some(Ordering::Greater)
        }
    }
}

impl PartialOrdSpecImpl for Time {
    open spec fn obeys_partial_cmp_spec() -> bool {
        true
    }

    open spec fn partial_cmp_spec(&self, other: &Time) -> Option<Ordering> {
        if frame_count(self@) < frame_count(other@) {
            Some(Ordering::Less)
        } else if frame_count(self@) == frame_count(other@) {
            Some(Ordering::Equal)
        } else {
            Some(Ordering::Greater)
        }
    }
}

} // verus!
