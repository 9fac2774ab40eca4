//! Executing a typed operation against the registry: resolve the backend
//! (physical before simulated), check the matching whitelist, then read or
//! write through the uniform pin interface.
use vstd::prelude::*;

verus! {

use crate::config::contains_u8;
use crate::pins::{DiscreteIO, GpioIndex, Level};
use crate::registry::{lemma_map_update_same_key, lemma_map_val_at, map_find, map_has, map_val, unique_keys, PinRegistry};
use crate::request::{ErrKind, Operation, OperationArgs, RequestError};

/// Whether an operation ran, with the reason when it did not.
#[derive(Debug)]
pub enum OperationStatus {
    Succeeded,
    Failed(String),
}

/// The outcome of one request: a successful read with its level, a
/// successful write, or a failure with its reason text.
#[derive(Debug)]
pub enum OperationResult {
    Get(OperationStatus, Level, GpioIndex),
    SetTo(OperationStatus, GpioIndex),
    Error(String),
}

/// Performs one operation on one already-resolved pin, against the
/// whitelist pair of that pin's backend. Exactly one read or write happens
/// on success; nothing happens on failure.
pub fn perform_pin_io<T: DiscreteIO>(
    op_args: &OperationArgs,
    pin: &mut T,
    get_whitelist: &Vec<GpioIndex>,
    set_whitelist: &Vec<GpioIndex>,
) -> (r: Result<OperationResult, RequestError>)
    ensures
        match op_args.operation {
            Operation::Get() => {
                &&& *final(pin) == *old(pin)
                &&& if get_whitelist@.contains(op_args.gpio_index) {
                    r matches Ok(OperationResult::Get(st, lv, p)) && st is Succeeded && p
                        == op_args.gpio_index && (old(pin).level_known() ==> lv == old(
                        pin,
                    ).level())
                } else {
                    r matches Err(e) && e.kind() == ErrKind::NotWhitelistedForGet && e.err_idx()
                        == op_args.gpio_index
                }
            },
            Operation::SetTo(l) => {
                if set_whitelist@.contains(op_args.gpio_index) {
                    &&& r matches Ok(OperationResult::SetTo(st, p)) && st is Succeeded && p
                        == op_args.gpio_index
                    &&& final(pin).level_known() == old(pin).level_known()
                    &&& old(pin).level_known() ==> final(pin).level() == l
                    &&& old(pin).wrote(final(pin), l)
                } else {
                    &&& *final(pin) == *old(pin)
                    &&& r matches Err(e) && e.kind() == ErrKind::NotWhitelistedForSet
                        && e.err_idx() == op_args.gpio_index
                }
            },
        },
{
    match &op_args.operation {
        Operation::Get() => {
            if contains_u8(get_whitelist, op_args.gpio_index) {
                let level = pin.get_state();
                Ok(OperationResult::Get(OperationStatus::Succeeded, level, op_args.gpio_index))
            } else {
                Err(RequestError::NotWhitelistedForGet(op_args.gpio_index))
            }
        },
        Operation::SetTo(level) => {
            if contains_u8(set_whitelist, op_args.gpio_index) {
                pin.set_state(level);
                Ok(OperationResult::SetTo(OperationStatus::Succeeded, op_args.gpio_index))
            } else {
                Err(RequestError::NotWhitelistedForSet(op_args.gpio_index))
            }
        },
    }
}

/// How one executed operation relates the registry after the call, and the
/// outcome, to the registry before it. A physical entry always takes
/// precedence over a simulated entry with the same index; the whitelist
/// pair consulted is the resolved backend's own; an index in neither table
/// fails as not found, whatever the whitelists say. Only a whitelisted
/// write to a simulated pin changes what the registry tracks.
pub open spec fn board_op_rel(
    op: OperationArgs,
    pre: PinRegistry,
    post: PinRegistry,
    r: Result<OperationResult, RequestError>,
) -> bool {
    let i = op.gpio_index;
    &&& post.pin_set == pre.pin_set
    &&& if map_has(pre.physical@, i) {
        &&& post.simulated@ == pre.simulated@
        &&& forall|x: GpioIndex| #[trigger]
            map_has(post.physical@, x) == map_has(pre.physical@, x)
        &&& match op.operation {
            Operation::Get() => {
                &&& post.physical@ == pre.physical@
                &&& if pre.pin_set.get_whitelist@.contains(i) {
                    r matches Ok(OperationResult::Get(st, _lv, p)) && st is Succeeded && p == i
                } else {
                    r matches Err(e) && e.kind() == ErrKind::NotWhitelistedForGet && e.err_idx()
                        == i
                }
            },
            Operation::SetTo(l) => {
                if pre.pin_set.set_whitelist@.contains(i) {
                    &&& r matches Ok(OperationResult::SetTo(st, p)) && st is Succeeded && p == i
                    &&& post.physical@.len() == pre.physical@.len()
                    &&& forall|j: int|
                        0 <= j < pre.physical@.len() && pre.physical@[j].0 != i ==> #[trigger]
                            post.physical@[j] == pre.physical@[j]
                    &&& forall|j: int|
                        0 <= j < pre.physical@.len() && pre.physical@[j].0 == i ==> (
                        #[trigger] post.physical@[j]).0 == pre.physical@[j].0
                            && pre.physical@[j].1.wrote(&post.physical@[j].1, l)
                } else {
                    (r matches Err(e) && e.kind() == ErrKind::NotWhitelistedForSet && e.err_idx()
                        == i) && post.physical@ == pre.physical@
                }
            },
        }
    } else if map_has(pre.simulated@, i) {
        &&& post.physical@ == pre.physical@
        &&& forall|x: GpioIndex| #[trigger]
            map_has(post.simulated@, x) == map_has(pre.simulated@, x)
        &&& match op.operation {
            Operation::Get() => {
                &&& post.simulated@ == pre.simulated@
                &&& if pre.pin_set.get_simulated@.contains(i) {
                    r matches Ok(OperationResult::Get(st, lv, p)) && st is Succeeded && p == i
                        && lv == pre.sim_level(i)
                } else {
                    r matches Err(e) && e.kind() == ErrKind::NotWhitelistedForGet && e.err_idx()
                        == i
                }
            },
            Operation::SetTo(l) => {
                if pre.pin_set.set_simulated@.contains(i) {
                    &&& r matches Ok(OperationResult::SetTo(st, p)) && st is Succeeded && p == i
                    &&& post.sim_level(i) == l
                    &&& forall|x: GpioIndex|
                        x != i && map_has(pre.simulated@, x) ==> #[trigger] post.sim_level(x)
                            == pre.sim_level(x)
                } else {
                    (r matches Err(e) && e.kind() == ErrKind::NotWhitelistedForSet && e.err_idx()
                        == i) && post.simulated@ == pre.simulated@
                }
            },
        }
    } else {
        &&& r matches Err(e) && e.kind() == ErrKind::PinNotFound && e.err_idx() == i
        &&& post.physical@ == pre.physical@
        &&& post.simulated@ == pre.simulated@
    }
}

/// Resolves the operation's index against the registry and performs it:
/// the physical table is consulted first, the simulated table second, and
/// an index in neither fails as not found.
pub fn perform_board_operation(op_args: &OperationArgs, registry: &mut PinRegistry) -> (r: Result<
    OperationResult,
    RequestError,
>)
    requires
        old(registry).wf(),
    ensures
        final(registry).wf(),
        board_op_rel(*op_args, *old(registry), *final(registry), r),
{
    let i = op_args.gpio_index;
    let phys = map_find(&registry.physical, i);
    match phys {
        Some(j) => {
            let ghost pre_phys = registry.physical@;
            let entry = &mut registry.physical[j];
            let r = perform_pin_io(
                op_args,
                &mut entry.1,
                &registry.pin_set.get_whitelist,
                &registry.pin_set.set_whitelist,
            );
            proof {
                lemma_map_update_same_key(
                    pre_phys,
                    j as int,
                    registry.physical@[j as int].1,
                );
                assert(registry.physical@ =~= pre_phys.update(
                    j as int,
                    (pre_phys[j as int].0, registry.physical@[j as int].1),
                ));
                match op_args.operation {
                    Operation::Get() => {
                        assert(registry.physical@ =~= pre_phys);
                    },
                    Operation::SetTo(_) => {
                        if !registry.pin_set.set_whitelist@.contains(op_args.gpio_index) {
                            assert(registry.physical@ =~= pre_phys);
                        } else {
                            assert forall|j2: int|
                                0 <= j2 < pre_phys.len() && pre_phys[j2].0
                                == op_args.gpio_index implies j2 == j as int by {
                                if j2 < j {
                                    assert(pre_phys[j2].0 != pre_phys[j as int].0);
                                } else if j2 > j {
                                    assert(pre_phys[j as int].0 != pre_phys[j2].0);
                                }
                            }
                        }
                    },
                }
            }
            r
        },
        None => {
            let sim = map_find(&registry.simulated, i);
            match sim {
                Some(j) => {
                    let ghost pre_sim = registry.simulated@;
                    proof {
                        lemma_map_val_at(pre_sim, j as int, i);
                    }
                    let entry = &mut registry.simulated[j];
                    let r = perform_pin_io(
                        op_args,
                        &mut entry.1,
                        &registry.pin_set.get_simulated,
                        &registry.pin_set.set_simulated,
                    );
                    proof {
                        lemma_map_update_same_key(
                            pre_sim,
                            j as int,
                            registry.simulated@[j as int].1,
                        );
                        assert(registry.simulated@ =~= pre_sim.update(
                            j as int,
                            (pre_sim[j as int].0, registry.simulated@[j as int].1),
                        ));
                        assert forall|x: GpioIndex|
                            x != i && map_has(pre_sim, x) implies #[trigger] map_val(
                            registry.simulated@,
                            x,
                        ) == map_val(pre_sim, x) by {
                        }
                        match op_args.operation {
                            Operation::Get() => {
                                assert(registry.simulated@ =~= pre_sim);
                            },
                            Operation::SetTo(_) => {
                                if !registry.pin_set.set_simulated@.contains(op_args.gpio_index) {
                                    assert(registry.simulated@ =~= pre_sim);
                                }
                            },
                        }
                    }
                    r
                },
                None => Err(RequestError::PinNotFound(i)),
            }
        },
    }
}

/// Physical precedence: when an index is in both lookup tables, the
/// outcome is decided by the physical whitelists alone, the pin read or
/// written is the physical one, and the simulated table is never touched,
/// whatever the simulated whitelists say and in whatever order requests
/// come.
pub proof fn lemma_physical_precedence(
    op: OperationArgs,
    pre: PinRegistry,
    post: PinRegistry,
    r: Result<OperationResult, RequestError>,
)
    requires
        map_has(pre.physical@, op.gpio_index),
        map_has(pre.simulated@, op.gpio_index),
        board_op_rel(op, pre, post, r),
    ensures
        post.simulated@ == pre.simulated@,
        op.operation is Get ==> (r is Ok <==> pre.pin_set.get_whitelist@.contains(op.gpio_index)),
        op.operation matches Operation::SetTo(_) ==> (r is Ok
            <==> pre.pin_set.set_whitelist@.contains(op.gpio_index)),
{
}

/// An index absent from both lookup tables fails as not found, never as a
/// whitelist refusal, even when a whitelist lists it; nothing changes.
pub proof fn lemma_not_found_over_whitelist(
    op: OperationArgs,
    pre: PinRegistry,
    post: PinRegistry,
    r: Result<OperationResult, RequestError>,
)
    requires
        !map_has(pre.physical@, op.gpio_index),
        !map_has(pre.simulated@, op.gpio_index),
        board_op_rel(op, pre, post, r),
    ensures
        r matches Err(e) && e.kind() == ErrKind::PinNotFound && e.err_idx() == op.gpio_index,
        post.physical@ == pre.physical@,
        post.simulated@ == pre.simulated@,
{
}

/// Whatever one operation does, a wired registry stays wired: every
/// physical entry keeps holding the line of its own index, in the
/// direction it was configured with. Together with `PinRegistry::build`,
/// which establishes the wiring, this holds across any sequence of
/// requests.
pub proof fn lemma_wiring_preserved(
    op: OperationArgs,
    pre: PinRegistry,
    post: PinRegistry,
    r: Result<OperationResult, RequestError>,
)
    requires
        board_op_rel(op, pre, post, r),
        pre.phys_wired(),
    ensures
        post.phys_wired(),
{
    let i = op.gpio_index;
    if map_has(pre.physical@, i) {
        match op.operation {
            Operation::Get() => {},
            Operation::SetTo(l) => {
                if pre.pin_set.set_whitelist@.contains(i) {
                    assert forall|j: int|
                        0 <= j < post.physical@.len() implies (#[trigger] post.physical@[j]).1.index
                        == post.physical@[j].0 && (post.physical@[j].1.is_output
                        <==> post.pin_set.set_whitelist@.contains(post.physical@[j].0)) by {
                        if pre.physical@[j].0 == i {
                            assert(pre.physical@[j].1.wrote(&post.physical@[j].1, l));
                        } else {
                            assert(post.physical@[j] == pre.physical@[j]);
                        }
                    }
                }
            },
        }
    }
}

} // verus!
