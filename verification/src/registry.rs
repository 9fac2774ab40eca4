//! The pin registry: the physical and simulated lookup tables, built once
//! from the whitelists, plus the whitelists themselves for runtime checks.
use vstd::prelude::*;

verus! {

use crate::config::{no_dups, PinSet};
use crate::pins::{acquire_io_pin, gpio_new, GpioIndex, Level, PhysicalPin, SimulatedPin};

/// Whether an association list holds the given key.
pub open spec fn map_has<T>(m: Seq<(GpioIndex, T)>, k: GpioIndex) -> bool {
    exists|i: int| 0 <= i < m.len() && (#[trigger] m[i]).0 == k
}

/// The value an association list holds for the given key.
pub open spec fn map_val<T>(m: Seq<(GpioIndex, T)>, k: GpioIndex) -> T {
    m[choose|i: int| 0 <= i < m.len() && (#[trigger] m[i]).0 == k].1
}

/// No key appears twice.
pub open spec fn unique_keys<T>(m: Seq<(GpioIndex, T)>) -> bool {
    forall|i: int, j: int| 0 <= i < j < m.len() ==> (#[trigger] m[i]).0 != (#[trigger] m[j]).0
}

pub proof fn lemma_map_has_push<T>(m: Seq<(GpioIndex, T)>, e: (GpioIndex, T))
    ensures
        forall|x: GpioIndex| #[trigger]
            map_has(m.push(e), x) <==> (map_has(m, x) || x == e.0),
{
    assert forall|x: GpioIndex| #[trigger] map_has(m.push(e), x) implies (map_has(m, x) || x
        == e.0) by {
        let i = choose|i: int| 0 <= i < m.push(e).len() && (#[trigger] m.push(e)[i]).0 == x;
        if i < m.len() {
            assert(m[i] == m.push(e)[i]);
            assert(map_has(m, x));
        } else {
            assert(m.push(e)[i] == e);
        }
    }
    assert forall|x: GpioIndex| (map_has(m, x) || x == e.0) implies #[trigger] map_has(
        m.push(e),
        x,
    ) by {
        if map_has(m, x) {
            let i = choose|i: int| 0 <= i < m.len() && (#[trigger] m[i]).0 == x;
            assert(m.push(e)[i] == m[i]);
        } else {
            assert(m.push(e)[m.len() as int] == e);
        }
    }
}

pub proof fn lemma_unique_push<T>(m: Seq<(GpioIndex, T)>, e: (GpioIndex, T))
    requires
        unique_keys(m),
        !map_has(m, e.0),
    ensures
        unique_keys(m.push(e)),
{
    assert forall|i: int, j: int| 0 <= i < j < m.push(e).len() implies (#[trigger] m.push(e)[i]).0
        != (#[trigger] m.push(e)[j]).0 by {
        if j < m.len() {
            assert(m.push(e)[i] == m[i] && m.push(e)[j] == m[j]);
        } else {
            assert(m.push(e)[j] == e);
            assert(m.push(e)[i] == m[i]);
            if m[i].0 == e.0 {
                assert(map_has(m, e.0));
            }
        }
    }
}

/// Taking one more element of a whitelist extends what it contains by
/// exactly that element.
pub proof fn lemma_take_succ_contains(s: Seq<GpioIndex>, k: int)
    requires
        0 <= k < s.len(),
    ensures
        s.take(k + 1) =~= s.take(k).push(s[k]),
        forall|x: GpioIndex| #[trigger]
            s.take(k + 1).contains(x) <==> (s.take(k).contains(x) || x == s[k]),
{
    assert forall|x: GpioIndex| #[trigger]
        s.take(k + 1).contains(x) <==> (s.take(k).contains(x) || x == s[k]) by {
        let t1 = s.take(k + 1);
        let t0 = s.take(k);
        if t1.contains(x) {
            let j = choose|j: int| 0 <= j < t1.len() && t1[j] == x;
            if j < k {
                assert(t0[j] == x);
            }
        }
        if t0.contains(x) {
            let j = choose|j: int| 0 <= j < t0.len() && t0[j] == x;
            assert(t1[j] == x);
        }
        if x == s[k] {
            assert(t1[k] == x);
        }
    }
}

pub proof fn lemma_map_val_at<T>(m: Seq<(GpioIndex, T)>, j: int, x: GpioIndex)
    requires
        unique_keys(m),
        0 <= j < m.len(),
        m[j].0 == x,
    ensures
        map_val(m, x) == m[j].1,
        map_has(m, x),
{
    assert(map_has(m, x));
    let i0 = choose|i: int| 0 <= i < m.len() && (#[trigger] m[i]).0 == x;
    if i0 != j {
        if i0 < j {
            assert(m[i0].0 != m[j].0);
        } else {
            assert(m[j].0 != m[i0].0);
        }
        assert(false);
    }
}

pub proof fn lemma_map_update_same_key<T>(m: Seq<(GpioIndex, T)>, j: int, v: T)
    requires
        unique_keys(m),
        0 <= j < m.len(),
    ensures
        unique_keys(m.update(j, (m[j].0, v))),
        forall|x: GpioIndex| #[trigger]
            map_has(m.update(j, (m[j].0, v)), x) == map_has(m, x),
        forall|x: GpioIndex|
            x != m[j].0 && map_has(m, x) ==> #[trigger] map_val(m.update(j, (m[j].0, v)), x)
                == map_val(m, x),
        map_val(m.update(j, (m[j].0, v)), m[j].0) == v,
{
    let m2 = m.update(j, (m[j].0, v));
    assert(m2.len() == m.len());
    assert(forall|i: int| 0 <= i < m.len() ==> (#[trigger] m2[i]).0 == m[i].0);
    assert forall|x: GpioIndex| #[trigger] map_has(m2, x) == map_has(m, x) by {
        if map_has(m2, x) {
            let i = choose|i: int| 0 <= i < m2.len() && (#[trigger] m2[i]).0 == x;
            assert(m[i].0 == x);
            assert(map_has(m, x));
        }
        if map_has(m, x) {
            let i = choose|i: int| 0 <= i < m.len() && (#[trigger] m[i]).0 == x;
            assert(m2[i].0 == x);
            assert(map_has(m2, x));
        }
    }
    assert forall|x: GpioIndex| x != m[j].0 && map_has(m, x) implies #[trigger] map_val(m2, x)
        == map_val(m, x) by {
        let i1 = choose|i: int| 0 <= i < m.len() && (#[trigger] m[i]).0 == x;
        lemma_map_val_at(m, i1, x);
        assert(i1 != j);
        assert(m2[i1].0 == x);
        lemma_map_val_at(m2, i1, x);
        assert(m2[i1].1 == m[i1].1);
    }
    lemma_map_val_at(m2, j, m[j].0);
}

/// Finds the position of a key in an association list.
pub fn map_find<T>(m: &Vec<(GpioIndex, T)>, k: GpioIndex) -> (r: Option<usize>)
    ensures
        match r {
            Some(j) => j < m@.len() && m@[j as int].0 == k && map_has(m@, k),
            None => !map_has(m@, k),
        },
{
    let mut i: usize = 0;
    while i < m.len()
        invariant
            i <= m@.len(),
            forall|j: int| 0 <= j < i ==> (#[trigger] m@[j]).0 != k,
        decreases m@.len() - i,
    {
        if m[i].0 == k {
            return Some(i);
        }
        i = i + 1;
    }
    proof {
        if map_has(m@, k) {
            let j = choose|j: int| 0 <= j < m@.len() && (#[trigger] m@[j]).0 == k;
            assert(m@[j].0 != k);
        }
    }
    None
}

/// Loop bookkeeping for `PinRegistry::build`: each physical entry built so
/// far is the line of its own index, output exactly when set-whitelisted.
pub open spec fn wired_entries(m: Seq<(GpioIndex, PhysicalPin)>, pin_set: PinSet) -> bool {
    forall|j: int|
        0 <= j < m.len() ==> (#[trigger] m[j]).1.index == m[j].0 && (m[j].1.is_output
            <==> pin_set.set_whitelist@.contains(m[j].0))
}

/// The registry: the four whitelists, the physical lookup table and the
/// simulated lookup table. Built once; shared by every request thereafter.
pub struct PinRegistry {
    pub pin_set: PinSet,
    pub physical: Vec<(GpioIndex, PhysicalPin)>,
    pub simulated: Vec<(GpioIndex, SimulatedPin)>,
}

impl PinRegistry {
    /// Each lookup table maps every index to at most one pin.
    pub open spec fn wf(&self) -> bool {
        unique_keys(self.physical@) && unique_keys(self.simulated@)
    }

    /// The level the registry tracks for a simulated pin.
    pub open spec fn sim_level(&self, i: GpioIndex) -> Level {
        map_val(self.simulated@, i).level.level
    }

    /// Which indices the simulated table must serve: every set-simulated
    /// index, and every get-simulated index not claimed by the physical
    /// set-whitelist.
    pub open spec fn sim_keys_target(pin_set: PinSet, i: GpioIndex) -> bool {
        pin_set.set_simulated@.contains(i) || (pin_set.get_simulated@.contains(i)
            && !pin_set.set_whitelist@.contains(i))
    }

    /// Every physical entry holds the hardware line of its own index,
    /// configured as output exactly when that index is set-whitelisted.
    pub open spec fn phys_wired(&self) -> bool {
        forall|j: int|
            0 <= j < self.physical@.len() ==> (#[trigger] self.physical@[j]).1.index
                == self.physical@[j].0 && (self.physical@[j].1.is_output
                <==> self.pin_set.set_whitelist@.contains(self.physical@[j].0))
    }

    /// Builds the registry. Physical lines are claimed only when both the
    /// get- and set-whitelist are non-empty; set-whitelisted lines are
    /// configured as outputs, remaining get-whitelisted lines as inputs.
    /// Any hardware acquisition failure aborts construction; with no
    /// physical lines requested, construction cannot fail. Every simulated
    /// pin starts Low.
    #[verifier::loop_isolation(false)]
    pub fn build(pin_set: PinSet) -> (r: Result<PinRegistry, String>)
        requires
            pin_set.wf(),
        ensures
            (pin_set.get_whitelist@.len() == 0 || pin_set.set_whitelist@.len() == 0) ==> r is Ok,
            r matches Ok(reg) ==> {
                &&& reg.wf()
                &&& reg.pin_set == pin_set
                &&& (pin_set.get_whitelist@.len() == 0 || pin_set.set_whitelist@.len() == 0)
                    ==> reg.physical@.len() == 0
                &&& (pin_set.get_whitelist@.len() > 0 && pin_set.set_whitelist@.len() > 0)
                    ==> forall|i: GpioIndex|
                    #[trigger] map_has(reg.physical@, i) <==> (pin_set.set_whitelist@.contains(i)
                        || pin_set.get_whitelist@.contains(i))
                &&& forall|i: GpioIndex|
                    #[trigger] map_has(reg.simulated@, i) <==> Self::sim_keys_target(pin_set, i)
                &&& forall|i: GpioIndex|
                    map_has(reg.simulated@, i) ==> #[trigger] reg.sim_level(i) == Level::Low
                &&& reg.phys_wired()
                &&& forall|i: GpioIndex|
                    #[trigger] map_has(reg.physical@, i) ==> map_val(reg.physical@, i).index == i
                        && (map_val(reg.physical@, i).is_output
                        <==> pin_set.set_whitelist@.contains(i))
            },
    {
        let mut physical: Vec<(GpioIndex, PhysicalPin)> = Vec::new();
        if physical_requested(&pin_set) {
            let gpio = match gpio_new() {
                Ok(g) => g,
                Err(e) => {
                    return Err(e);
                },
            };
            let mut k: usize = 0;
            while k < pin_set.set_whitelist.len()
                invariant
                    k <= pin_set.set_whitelist@.len(),
                    unique_keys(physical@),
                    forall|x: GpioIndex| #[trigger]
                        map_has(physical@, x) <==> pin_set.set_whitelist@.take(
                            k as int,
                        ).contains(x),
                    wired_entries(physical@, pin_set),
                decreases pin_set.set_whitelist@.len() - k,
            {
                let idx = pin_set.set_whitelist[k];
                let pin = match acquire_io_pin(&gpio, idx, true) {
                    Ok(p) => p,
                    Err(e) => {
                        return Err(e);
                    },
                };
                proof {
                    let take_k = pin_set.set_whitelist@.take(k as int);
                    if take_k.contains(idx) {
                        let j = choose|j: int| 0 <= j < take_k.len() && take_k[j] == idx;
                        assert(pin_set.set_whitelist@[j] == pin_set.set_whitelist@[k as int]);
                        assert(false);
                    }
                    lemma_map_has_push(physical@, (idx, pin));
                    lemma_unique_push(physical@, (idx, pin));
                    lemma_take_succ_contains(pin_set.set_whitelist@, k as int);
                    assert(pin_set.set_whitelist@.contains(idx));
                }
                let ghost prev_phys = physical@;
                physical.push((idx, pin));
                proof {
                    assert forall|j: int|
                        0 <= j < physical@.len() implies (#[trigger] physical@[j]).1.index
                        == physical@[j].0 && (physical@[j].1.is_output
                        <==> pin_set.set_whitelist@.contains(physical@[j].0)) by {
                        if j < prev_phys.len() {
                            assert(physical@[j] == prev_phys[j]);
                        } else {
                            assert(physical@[j] == (idx, pin));
                        }
                    }
                }
                k = k + 1;
            }
            proof {
                assert(pin_set.set_whitelist@.take(pin_set.set_whitelist@.len() as int)
                    =~= pin_set.set_whitelist@);
            }
            let mut k: usize = 0;
            while k < pin_set.get_whitelist.len()
                invariant
                    k <= pin_set.get_whitelist@.len(),
                    unique_keys(physical@),
                    forall|x: GpioIndex| #[trigger]
                        map_has(physical@, x) <==> (pin_set.set_whitelist@.contains(x)
                            || (pin_set.get_whitelist@.take(k as int).contains(x)
                            && !pin_set.set_whitelist@.contains(x))),
                    wired_entries(physical@, pin_set),
                decreases pin_set.get_whitelist@.len() - k,
            {
                let idx = pin_set.get_whitelist[k];
                let ghost take_k = pin_set.get_whitelist@.take(k as int);
                proof {
                    lemma_take_succ_contains(pin_set.get_whitelist@, k as int);
                }
                if !crate::config::contains_u8(&pin_set.set_whitelist, idx) {
                    let pin = match acquire_io_pin(&gpio, idx, false) {
                        Ok(p) => p,
                        Err(e) => {
                            return Err(e);
                        },
                    };
                    proof {
                        if take_k.contains(idx) {
                            let j = choose|j: int| 0 <= j < take_k.len() && take_k[j] == idx;
                            assert(pin_set.get_whitelist@[j] == pin_set.get_whitelist@[k as int]);
                            assert(false);
                        }
                        assert(!map_has(physical@, idx));
                        lemma_map_has_push(physical@, (idx, pin));
                        lemma_unique_push(physical@, (idx, pin));
                    }
                    let ghost prev_phys = physical@;
                    physical.push((idx, pin));
                    proof {
                        assert forall|j: int|
                            0 <= j < physical@.len() implies (#[trigger] physical@[j]).1.index
                            == physical@[j].0 && (physical@[j].1.is_output
                            <==> pin_set.set_whitelist@.contains(physical@[j].0)) by {
                            if j < prev_phys.len() {
                                assert(physical@[j] == prev_phys[j]);
                            } else {
                                assert(physical@[j] == (idx, pin));
                            }
                        }
                    }
                } else {
                    proof {
                        assert(pin_set.set_whitelist@.contains(idx));
                    }
                }
                k = k + 1;
            }
            proof {
                assert(pin_set.get_whitelist@.take(pin_set.get_whitelist@.len() as int)
                    =~= pin_set.get_whitelist@);
            }
        }
        let ghost phys_done = physical@;
        let mut simulated: Vec<(GpioIndex, SimulatedPin)> = Vec::new();
        let mut k: usize = 0;
        while k < pin_set.set_simulated.len()
            invariant
                k <= pin_set.set_simulated@.len(),
                unique_keys(simulated@),
                physical@ == phys_done,
                forall|x: GpioIndex| #[trigger]
                    map_has(simulated@, x) <==> pin_set.set_simulated@.take(k as int).contains(x),
                forall|j: int|
                    0 <= j < simulated@.len() ==> (#[trigger] simulated@[j]).1.level.level
                        == Level::Low,
            decreases pin_set.set_simulated@.len() - k,
        {
            let idx = pin_set.set_simulated[k];
            let ghost take_k = pin_set.set_simulated@.take(k as int);
            let pin = SimulatedPin::new();
            proof {
                if take_k.contains(idx) {
                    let j = choose|j: int| 0 <= j < take_k.len() && take_k[j] == idx;
                    assert(pin_set.set_simulated@[j] == pin_set.set_simulated@[k as int]);
                    assert(false);
                }
                lemma_map_has_push(simulated@, (idx, pin));
                lemma_unique_push(simulated@, (idx, pin));
                lemma_take_succ_contains(pin_set.set_simulated@, k as int);
            }
            simulated.push((idx, pin));
            k = k + 1;
        }
        proof {
            assert(pin_set.set_simulated@.take(pin_set.set_simulated@.len() as int)
                =~= pin_set.set_simulated@);
        }
        let mut k: usize = 0;
        while k < pin_set.get_simulated.len()
            invariant
                k <= pin_set.get_simulated@.len(),
                unique_keys(simulated@),
                physical@ == phys_done,
                forall|x: GpioIndex| #[trigger]
                    map_has(simulated@, x) <==> (pin_set.set_simulated@.contains(x)
                        || (pin_set.get_simulated@.take(k as int).contains(x)
                        && !pin_set.set_whitelist@.contains(x))),
                forall|j: int|
                    0 <= j < simulated@.len() ==> (#[trigger] simulated@[j]).1.level.level
                        == Level::Low,
            decreases pin_set.get_simulated@.len() - k,
        {
            let idx = pin_set.get_simulated[k];
            proof {
                lemma_take_succ_contains(pin_set.get_simulated@, k as int);
            }
            if !crate::config::contains_u8(&pin_set.set_whitelist, idx) {
                let already = map_find(&simulated, idx);
                if already.is_none() {
                    let pin = SimulatedPin::new();
                    proof {
                        lemma_map_has_push(simulated@, (idx, pin));
                        lemma_unique_push(simulated@, (idx, pin));
                    }
                    simulated.push((idx, pin));
                }
            }
            k = k + 1;
        }
        proof {
            assert(pin_set.get_simulated@.take(pin_set.get_simulated@.len() as int)
                =~= pin_set.get_simulated@);
        }
        proof {
            assert forall|i: GpioIndex| #[trigger]
                map_has(physical@, i) implies map_val(physical@, i).index == i && (map_val(
                physical@,
                i,
            ).is_output <==> pin_set.set_whitelist@.contains(i)) by {
                let j = choose|j: int| 0 <= j < physical@.len() && (#[trigger] physical@[j]).0
                    == i;
                lemma_map_val_at(physical@, j, i);
            }
        }
        Ok(PinRegistry { pin_set, physical, simulated })
    }
}

fn physical_requested(pin_set: &PinSet) -> (r: bool)
    ensures
        r == (pin_set.get_whitelist@.len() > 0 && pin_set.set_whitelist@.len() > 0),
{
    pin_set.get_whitelist.len() > 0 && pin_set.set_whitelist.len() > 0
}

} // verus!
