//! The conservation checker that tracks the budgets, as the rest of the crate sees it.
//!
//! A [`ConservationChecker`] maps names to quantities. [`quantities`] names what it holds, and
//! each function here makes one call into it and says over that name what the call does. The
//! checker stores doubles; the functions here hand it whole numbers, so that all that it ever
//! holds for this crate are whole numbers rounded to the nearest double.
use conservation_checker::ConservationChecker;
use vstd::prelude::*;

use crate::amount::{in_range, nearest_double};

verus! {

/// The trajectory of a tracked quantity.
#[derive(Debug, Clone, Copy, PartialEq, Eq, Structural)]
pub enum Phase {
    /// The quantity is holding steady.
    Stable,
    /// The quantity is conserved, and its rate of change is growing.
    PreTransition,
    /// The quantity is not conserved and still falling.
    Transitioning,
    /// The quantity is not conserved and recovering.
    Resolving,
}

/// The double 0.01 times 2^59.
pub const NOISE_SHARE: i128 = 5_764_607_523_034_235;

/// 2^59: the scale on which changes are compared with the noise.
pub const NOISE_SCALE: i128 = 0x800_0000_0000_0000;

/// What a checker holds of one quantity.
#[verifier::ext_equal]
pub struct Quantity {
    /// The value that the quantity was registered with.
    pub initial: int,
    /// How far the quantity may fall below its initial value.
    pub tolerance: int,
    /// The present value.
    pub current: int,
    /// The initial value, followed by the value at each snapshot.
    pub history: Seq<int>,
}

impl Quantity {
    /// A quantity as it stands right after it was registered.
    pub open spec fn registered(initial: int, tolerance: int) -> Quantity {
        let value = nearest_double(initial);
        Quantity {
            initial: value,
            tolerance: nearest_double(tolerance),
            current: value,
            history: seq![value],
        }
    }

    /// The quantity with a new present value.
    pub open spec fn updated(self, value: int) -> Quantity {
        Quantity { current: nearest_double(value), ..self }
    }

    /// The quantity after a snapshot of its present value.
    pub open spec fn noted(self) -> Quantity {
        Quantity { history: self.history.push(self.current), ..self }
    }

    /// Whether the quantity has not fallen further than its tolerance allows.
    pub open spec fn conserved(self) -> bool {
        self.current >= nearest_double(self.initial - self.tolerance)
    }

    /// The change between the last two entries of the history, as a double.
    pub open spec fn last_step(self) -> int {
        nearest_double(
            self.history[self.history.len() - 1] - self.history[self.history.len() - 2],
        )
    }

    /// The change two steps before the last one, as a double, or nothing where the history is too
    /// short.
    pub open spec fn earlier_step(self) -> int {
        if self.history.len() >= 4 {
            nearest_double(
                self.history[self.history.len() - 3] - self.history[self.history.len() - 4],
            )
        } else {
            0
        }
    }

    /// What counts as noise in a change, times 2^59: one percent of the tolerance, which is taken
    /// to be at least one, as doubles multiply.
    pub open spec fn noise(self) -> int {
        nearest_double(
            (if self.tolerance >= 1 {
                self.tolerance
            } else {
                1
            }) * NOISE_SHARE,
        )
    }

    /// Whether the last change is more than noise.
    pub open spec fn notable(self) -> bool {
        magnitude(self.last_step()) * NOISE_SCALE > self.noise()
    }

    /// Whether the last change is larger than the one two steps before it.
    pub open spec fn growing(self) -> bool {
        magnitude(self.last_step()) > magnitude(self.earlier_step())
    }

    /// The phase of the quantity: `Stable` while the history has fewer than three entries or the
    /// last change is noise. Otherwise a quantity that is not conserved is `Transitioning` where
    /// it fell and `Resolving` where it rose, and a conserved one is `PreTransition` where its
    /// changes are growing.
    pub open spec fn phase(self) -> Phase {
        if self.history.len() < 3 || !self.notable() {
            Phase::Stable
        } else if !self.conserved() {
            if self.last_step() < 0 {
                Phase::Transitioning
            } else {
                Phase::Resolving
            }
        } else if self.growing() {
            Phase::PreTransition
        } else {
            Phase::Stable
        }
    }

    /// The drift rate that the checker reports for the quantity, as the bits of a double.
    pub open spec fn drift_rate(self) -> u64 {
        drift_rate_bits(self.history)
    }
}

/// The magnitude of a number.
pub open spec fn magnitude(v: int) -> int {
    if v >= 0 {
        v
    } else {
        -v
    }
}

/// The tracker of `conservation-checker`. Nothing inside it is visible here; [`quantities`] names
/// what it holds.
#[verifier::external_type_specification]
#[verifier::external_body]
pub struct ExConservationChecker(ConservationChecker);

/// What a checker holds: each registered name with its quantity.
pub uninterp spec fn quantities(checker: ConservationChecker) -> Map<Seq<char>, Quantity>;

/// The result of `ConservationChecker::drift_rate` on a quantity with this history, as the bits
/// of a double.
pub uninterp spec fn drift_rate_bits(history: Seq<int>) -> u64;

/// Every quantity of a checker after a snapshot of its present value.
pub open spec fn all_noted(held: Map<Seq<char>, Quantity>) -> Map<Seq<char>, Quantity> {
    held.map_values(|q: Quantity| q.noted())
}

/// `ConservationChecker::new`: a checker that holds nothing.
#[verifier::external_body]
pub(crate) fn new_checker() -> (checker: ConservationChecker)
    ensures
        quantities(checker) =~= Map::empty(),
{
    ConservationChecker::new()
}

/// `ConservationChecker::register`: adds a quantity under `name`, in place of one that was there.
/// Both numbers are rounded to doubles, the initial value is also the present one, and it is the
/// first entry of the history.
#[verifier::external_body]
pub(crate) fn register(
    checker: &mut ConservationChecker,
    name: &str,
    initial: i128,
    tolerance: i128,
)
    ensures
        quantities(*final(checker)) == quantities(*old(checker)).insert(
            name@,
            Quantity::registered(initial as int, tolerance as int),
        ),
{
    checker.register(name, initial as _, tolerance as _)
}

/// `ConservationChecker::update`: sets the present value of a registered quantity, rounded to a
/// double, and changes nothing else.
#[verifier::external_body]
pub(crate) fn update(checker: &mut ConservationChecker, name: &str, value: i128)
    requires
        quantities(*old(checker)).contains_key(name@),
    ensures
        quantities(*final(checker)) == quantities(*old(checker)).insert(
            name@,
            quantities(*old(checker))[name@].updated(value as int),
        ),
{
    checker.update(name, value as _)
}

/// `ConservationChecker::snapshot`: appends to each quantity's history its present value.
#[verifier::external_body]
pub(crate) fn note_all(checker: &mut ConservationChecker)
    ensures
        quantities(*final(checker)) == all_noted(quantities(*old(checker))),
{
    checker.snapshot()
}

/// `ConservationChecker::deregister`: removes the quantity under `name`, and says whether there
/// was one.
#[verifier::external_body]
pub(crate) fn deregister(checker: &mut ConservationChecker, name: &str) -> (existed: bool)
    ensures
        existed == quantities(*old(checker)).contains_key(name@),
        quantities(*final(checker)) == quantities(*old(checker)).remove(name@),
{
    checker.deregister(name)
}

/// `ConservationChecker::registered`: every registered name, once each, in no particular order.
#[verifier::external_body]
pub(crate) fn registered(checker: &ConservationChecker) -> (names: Vec<String>)
    ensures
        forall|i: int|
            0 <= i < names.len() ==> quantities(*checker).contains_key(#[trigger] names[i]@),
        forall|name: Seq<char>|
            #[trigger] quantities(*checker).contains_key(name) ==> exists|i: int|
                0 <= i < names.len() && (#[trigger] names[i])@ == name,
        forall|i: int, j: int| 0 <= i < j < names.len() ==> names[i]@ != names[j]@,
{
    checker.registered()
}

/// `ConservationChecker::current_value`: the present value of a registered quantity.
#[verifier::external_body]
pub(crate) fn current_value(checker: &ConservationChecker, name: &str) -> (value: i128)
    requires
        quantities(*checker).contains_key(name@),
        in_range(quantities(*checker)[name@].current),
    ensures
        value == quantities(*checker)[name@].current,
{
    checker.current_value(name) as i128
}

/// `ConservationChecker::initial_value`: the value that a quantity was registered with.
#[verifier::external_body]
pub(crate) fn initial_value(checker: &ConservationChecker, name: &str) -> (value: i128)
    requires
        quantities(*checker).contains_key(name@),
        in_range(quantities(*checker)[name@].initial),
    ensures
        value == quantities(*checker)[name@].initial,
{
    checker.initial_value(name) as i128
}

/// `ConservationChecker::phase`: the phase of a registered quantity, which depends on what the
/// checker holds of that quantity alone. The noise is compared on a scale of 2^59, on which the
/// double 0.01 and its products are whole numbers; scaling by a power of two changes no rounding.
#[verifier::external_body]
pub(crate) fn phase(checker: &ConservationChecker, name: &str) -> (phase: Phase)
    requires
        quantities(*checker).contains_key(name@),
    ensures
        phase == quantities(*checker)[name@].phase(),
{
    match checker.phase(name) {
        conservation_checker::Phase::Stable => Phase::Stable,
        conservation_checker::Phase::PreTransition => Phase::PreTransition,
        conservation_checker::Phase::Transitioning => Phase::Transitioning,
        conservation_checker::Phase::Resolving => Phase::Resolving,
    }
}

/// `ConservationChecker::drift_rate`: the average change per snapshot of a registered quantity, as
/// the bits of a double. It depends on the quantity's history alone, and is zero while the history
/// has fewer than two entries.
#[verifier::external_body]
pub(crate) fn drift_rate(checker: &ConservationChecker, name: &str) -> (bits: u64)
    requires
        quantities(*checker).contains_key(name@),
    ensures
        bits == drift_rate_bits(quantities(*checker)[name@].history),
        quantities(*checker)[name@].history.len() < 2 ==> bits == 0,
{
    checker.drift_rate(name).to_bits()
}

} // verus!
