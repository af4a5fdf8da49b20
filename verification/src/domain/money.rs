use vstd::prelude::*;

verus! {

/// An amount of chips, in the smallest unit of the chain's currency.
#[derive(Debug, Clone, Copy, PartialEq, Eq, PartialOrd, Ord, Structural)]
pub struct Chips(pub u128);

#[derive(Debug, Clone, Copy, PartialEq, Eq, Structural)]
pub enum MoneyError {
    Overflow,
    Underflow,
}

impl MoneyError {
    /// What the error says to a reader.
    pub fn message(self) -> (text: &'static str)
        ensures
            self is Overflow ==> text@ == "amount overflow"@,
            self is Underflow ==> text@ == "amount underflow"@,
    {
        match self {
            MoneyError::Overflow => "amount overflow",
            MoneyError::Underflow => "amount underflow",
        }
    }
}

impl Chips {
    /// No chips at all.
    pub fn zero() -> (amount: Chips)
        ensures
            amount.0 == 0,
    {
        Chips(0)
    }

    pub fn as_u128(self) -> (amount: u128)
        ensures
            amount == self.0,
    {
        self.0
    }

    /// The sum, or `Overflow` exactly when it does not fit.
    pub fn checked_add(self, rhs: Chips) -> (sum: Result<Chips, MoneyError>)
        ensures
            sum == self.plus(rhs),
    {
        match self.0.checked_add(rhs.0) {
            Some(total) => Ok(Chips(total)),
            None => Err(MoneyError::Overflow),
        }
    }

    /// The difference, or `Underflow` exactly when `rhs` is the larger amount.
    pub fn checked_sub(self, rhs: Chips) -> (difference: Result<Chips, MoneyError>)
        ensures
            difference == self.minus(rhs),
    {
        match self.0.checked_sub(rhs.0) {
            Some(rest) => Ok(Chips(rest)),
            None => Err(MoneyError::Underflow),
        }
    }

    /// Addition that reports an overflow.
    pub open spec fn plus(self, rhs: Chips) -> Result<Chips, MoneyError> {
        if self.0 + rhs.0 <= u128::MAX {
            Ok(Chips((self.0 + rhs.0) as u128))
        } else {
            Err(MoneyError::Overflow)
        }
    }

    /// Subtraction that reports an underflow.
    pub open spec fn minus(self, rhs: Chips) -> Result<Chips, MoneyError> {
        if rhs.0 <= self.0 {
            Ok(Chips((self.0 - rhs.0) as u128))
        } else {
            Err(MoneyError::Underflow)
        }
    }

    /// What is left of `self` after `rhs`, never less than nothing.
    pub open spec fn less(self, rhs: Chips) -> Chips {
        if rhs.0 <= self.0 {
            Chips((self.0 - rhs.0) as u128)
        } else {
            Chips(0)
        }
    }

    /// `self - rhs`, or zero chips where `rhs` is the larger amount.
    pub fn less_or_zero(self, rhs: Chips) -> (rest: Chips)
        ensures
            rest == self.less(rhs),
    {
        match self.checked_sub(rhs) {
            Ok(rest) => rest,
            Err(_) => Chips(0),
        }
    }
}

/// Subtracting what was added gives the first amount back.
pub proof fn subtraction_undoes_addition(a: Chips, b: Chips)
    requires
        a.plus(b) is Ok,
    ensures
        a.plus(b)->Ok_0.minus(b) == Ok::<Chips, MoneyError>(a),
{
}

/// The order of the two amounts does not matter to their sum.
pub proof fn addition_commutes(a: Chips, b: Chips)
    ensures
        a.plus(b) == b.plus(a),
{
}

} // verus!
