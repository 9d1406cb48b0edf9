//! Finding the connected targets and picking one of them.

use crate::error::Error;
use crate::target::{Probe, Target, TargetView};
use crate::text::str_eq;
use vstd::prelude::*;

verus! {

/// The targets among the devices of `probes`, in the order of the devices.
pub open spec fn targets_among(probes: Seq<Probe>) -> Seq<TargetView>
    decreases probes.len(),
{
    if probes.len() == 0 {
        Seq::empty()
    } else if probes.last().is_target() {
        targets_among(probes.drop_last()).push(probes.last().target())
    } else {
        targets_among(probes.drop_last())
    }
}

/// `targets` as mathematical values.
pub open spec fn views(targets: Seq<Target>) -> Seq<TargetView> {
    Seq::new(targets.len(), |i: int| targets[i]@)
}

/// Returns information about all connected targets in bootloader mode, given what each
/// connected device reports. A device that is not a target is left out; it is no error.
pub fn find_targets(probes: &[Probe]) -> (targets: Vec<Target>)
    ensures
        views(targets@) == targets_among(probes@),
{
    let mut targets: Vec<Target> = Vec::new();
    let mut i: usize = 0;
    assert(views(targets@) =~= targets_among(probes@.take(0)));
    while i < probes.len()
        invariant
            i <= probes@.len(),
            views(targets@) == targets_among(probes@.take(i as int)),
        decreases probes.len() - i,
    {
        let ghost before = views(targets@);
        assert(probes@.take(i + 1).drop_last() =~= probes@.take(i as int));
        match Target::try_from(&probes[i]) {
            Ok(target) => {
                targets.push(target);
                assert(views(targets@) =~= before.push(probes@[i as int].target()));
            },
            Err(_) => {},
        }
        i += 1;
    }
    assert(probes@.take(i as int) =~= probes@);
    targets
}

/// The first of `targets` that has the given serial number.
pub open spec fn first_with_serial(targets: Seq<TargetView>, serial: Seq<char>) -> Option<
    TargetView,
>
    decreases targets.len(),
{
    if targets.len() == 0 {
        None
    } else if targets[0].serial == serial {
        Some(targets[0])
    } else {
        first_with_serial(targets.drop_first(), serial)
    }
}

/// The target to connect to. With a serial number it is the first target that has it; without
/// one it is the only target, if there is exactly one.
pub open spec fn picked(targets: Seq<TargetView>, serial: Option<Seq<char>>) -> Result<
    TargetView,
    Error,
> {
    match serial {
        Some(serial) => match first_with_serial(targets, serial) {
            Some(target) => Ok(target),
            None => Err(Error::TargetNotFound),
        },
        None => if targets.len() == 1 {
            Ok(targets[0])
        } else if targets.len() == 0 {
            Err(Error::TargetNotFound)
        } else {
            Err(Error::TooManyMatches)
        },
    }
}

/// The serial number as a sequence of characters, if there is one.
pub open spec fn serial_view(serial: Option<&str>) -> Option<Seq<char>> {
    match serial {
        Some(serial) => Some(serial@),
        None => None,
    }
}

/// The outcome of picking a target, with the target as a mathematical value.
pub open spec fn picked_view(target: Result<Target, Error>) -> Result<TargetView, Error> {
    match target {
        Ok(target) => Ok(target@),
        Err(error) => Err(error),
    }
}

/// Returns one target if either
///
/// * A serial number is supplied which matches one of the connected targets' serial numbers or
/// * Only one target is connected and no serial number is supplied.
///
/// It can return the following errors:
/// * [`Error::TargetNotFound`] if no target is found based on the criteria above, and
/// * [`Error::TooManyMatches`] if more than one target is connected but no serial number is
///   supplied.
pub fn pick_target(targets: Vec<Target>, serial: Option<&str>) -> (target: Result<Target, Error>)
    ensures
        picked_view(target) == picked(views(targets@), serial_view(serial)),
{
    let mut candidates = targets;
    let ghost all = views(candidates@);
    match serial {
        Some(wanted) => {
            let mut i: usize = 0;
            assert(all.skip(0) =~= all);
            while i < candidates.len()
                invariant
                    i <= candidates@.len(),
                    serial == Some(wanted),
                    all == views(targets@),
                    all == views(candidates@),
                    first_with_serial(all, wanted@) == first_with_serial(
                        all.skip(i as int),
                        wanted@,
                    ),
                decreases candidates.len() - i,
            {
                assert(all.skip(i as int)[0] == candidates@[i as int]@);
                if str_eq(candidates[i].serial.as_str(), wanted) {
                    return Ok(candidates.remove(i));
                }
                assert(all.skip(i as int).drop_first() =~= all.skip(i + 1));
                i += 1;
            }
            Err(Error::TargetNotFound)
        },
        None => {
            if candidates.len() > 1 {
                // More than one target and no serial given
                Err(Error::TooManyMatches)
            } else if candidates.len() == 1 {
                Ok(candidates.remove(0))
            } else {
                Err(Error::TargetNotFound)
            }
        },
    }
}

/// With a serial number, the target picked has that serial number and none before it has;
/// there is none exactly if no target has the serial number, however many targets there are.
pub proof fn lemma_pick_by_serial(targets: Seq<TargetView>, serial: Seq<char>)
    ensures
        match picked(targets, Some(serial)) {
            Ok(target) => exists|i: int|
                {
                    &&& 0 <= i < targets.len()
                    &&& #[trigger] targets[i] == target
                    &&& target.serial == serial
                    &&& forall|k: int| 0 <= k < i ==> (#[trigger] targets[k]).serial != serial
                },
            Err(error) => {
                &&& error == Error::TargetNotFound
                &&& forall|k: int| 0 <= k < targets.len() ==> (#[trigger] targets[k]).serial != serial
            },
        },
    decreases targets.len(),
{
    if targets.len() > 0 && targets[0].serial != serial {
        let rest = targets.drop_first();
        lemma_pick_by_serial(rest, serial);
        match picked(rest, Some(serial)) {
            Ok(target) => {
                let i = choose|i: int|
                    {
                        &&& 0 <= i < rest.len()
                        &&& #[trigger] rest[i] == target
                        &&& target.serial == serial
                        &&& forall|k: int| 0 <= k < i ==> (#[trigger] rest[k]).serial != serial
                    };
                assert(targets[i + 1] == target);
                assert forall|k: int| 0 <= k < i + 1 implies (#[trigger] targets[k]).serial
                    != serial by {
                    if k > 0 {
                        assert(rest[k - 1] == targets[k]);
                    }
                }
            },
            Err(_) => {
                assert forall|k: int| 0 <= k < targets.len() implies (#[trigger] targets[k]).serial
                    != serial by {
                    if k > 0 {
                        assert(rest[k - 1] == targets[k]);
                    }
                }
            },
        }
    } else if targets.len() > 0 {
        assert(targets[0] == targets[0]);
    }
}

/// Without a serial number, the only target is picked; no target is an error, and so are two
/// or more, of which none is chosen.
pub proof fn lemma_pick_without_serial(targets: Seq<TargetView>)
    ensures
        targets.len() == 1 ==> picked(targets, None) == Ok::<TargetView, Error>(targets[0]),
        targets.len() == 0 ==> picked(targets, None) == Err::<TargetView, Error>(
            Error::TargetNotFound,
        ),
        targets.len() >= 2 ==> picked(targets, None) == Err::<TargetView, Error>(
            Error::TooManyMatches,
        ),
{
}

} // verus!
