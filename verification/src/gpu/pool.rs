//! A pool of GPU devices, handed out least contended first.
//!
//! The pool keeps, for every device, how many guards are out for it. A caller
//! that shares the pool between threads serializes `acquire` and `release`.
use vstd::prelude::*;

verus! {

/// One device and its contention.
#[derive(Debug)]
pub struct GpuDevice {
    /// Number of guards that are out for this device.
    pub active_count: usize,
    pub device_id: i32,
}

/// What a guard gives access to.
#[derive(Debug)]
pub struct DeviceContext {
    pub device_id: i32,
}

/// The right to use one device until it is released.
#[derive(Debug)]
pub struct DeviceGuard {
    pub context: DeviceContext,
    /// Position of the device in the pool.
    pub slot: usize,
}

#[derive(Debug)]
pub struct GpuPool {
    pub devices: Vec<GpuDevice>,
}

/// Position of the first of the smallest counts.
pub open spec fn is_least_contended(counts: Seq<usize>, at: int) -> bool {
    &&& 0 <= at < counts.len()
    &&& forall|i: int| 0 <= i < counts.len() ==> counts[at] <= #[trigger] counts[i]
    &&& forall|i: int| 0 <= i < at ==> counts[at] < #[trigger] counts[i]
}

/// One guard more. The count wraps round, as an atomic counter does.
pub open spec fn one_more(count: usize) -> usize {
    if count == usize::MAX {
        0
    } else {
        (count + 1) as usize
    }
}

/// One guard fewer.
pub open spec fn one_fewer(count: usize) -> usize {
    if count == 0 {
        usize::MAX
    } else {
        (count - 1) as usize
    }
}

impl GpuPool {
    /// The number of guards that are out for each device.
    pub open spec fn counts(&self) -> Seq<usize> {
        self.devices@.map_values(|device: GpuDevice| device.active_count)
    }

    pub open spec fn ids(&self) -> Seq<i32> {
        self.devices@.map_values(|device: GpuDevice| device.device_id)
    }

    /// Makes a pool with one context per device id.
    pub fn new(device_ids: &[i32]) -> (pool: Result<GpuPool, String>)
        ensures
            pool is Ok <==> device_ids@.len() > 0,
            pool matches Ok(pool) ==> pool.ids() == device_ids@ && pool.counts() == Seq::new(
                device_ids@.len(),
                |i: int| 0usize,
            ),
            pool matches Err(message) ==> message@ == "GpuPool requires at least one device ID"@,
    {
        if device_ids.len() == 0 {
            return Err("GpuPool requires at least one device ID".to_string());
        }
        let mut devices: Vec<GpuDevice> = Vec::new();
        let mut i: usize = 0;
        while i < device_ids.len()
            invariant
                i <= device_ids@.len(),
                devices@.len() == i,
                forall|k: int|
                    0 <= k < i ==> (#[trigger] devices@[k]).device_id == device_ids@[k]
                        && devices@[k].active_count == 0,
            decreases device_ids.len() - i,
        {
            devices.push(GpuDevice { active_count: 0, device_id: device_ids[i] });
            i = i + 1;
        }
        let pool = GpuPool { devices };
        assert(pool.ids() =~= device_ids@);
        assert(pool.counts() =~= Seq::new(device_ids@.len(), |i: int| 0usize));
        Ok(pool)
    }

    /// Hands out the least contended device, the first of several.
    pub fn acquire(&mut self) -> (guard: DeviceGuard)
        requires
            old(self).devices@.len() > 0,
        ensures
            is_least_contended(old(self).counts(), guard.slot as int),
            guard.context.device_id == old(self).ids()[guard.slot as int],
            final(self).ids() == old(self).ids(),
            final(self).counts() == old(self).counts().update(
                guard.slot as int,
                one_more(old(self).counts()[guard.slot as int]),
            ),
    {
        let mut best: usize = 0;
        let mut i: usize = 1;
        let ghost counts = self.counts();
        while i < self.devices.len()
            invariant
                counts == self.counts(),
                best < i <= self.devices@.len(),
                forall|k: int| 0 <= k < i ==> counts[best as int] <= #[trigger] counts[k],
                forall|k: int| 0 <= k < best ==> counts[best as int] < #[trigger] counts[k],
            decreases self.devices.len() - i,
        {
            assert(counts[best as int] == self.devices@[best as int].active_count);
            assert(counts[i as int] == self.devices@[i as int].active_count);
            if self.devices[i].active_count < self.devices[best].active_count {
                best = i;
            }
            i = i + 1;
        }
        let device_id: i32 = self.devices[best].device_id;
        let active_count: usize = self.devices[best].active_count;
        self.devices[best] = GpuDevice {
            active_count: if active_count == usize::MAX {
                0
            } else {
                active_count + 1
            },
            device_id,
        };
        assert(self.counts() =~= counts.update(best as int, one_more(active_count)));
        assert(self.ids() =~= old(self).ids());
        DeviceGuard { context: DeviceContext { device_id }, slot: best }
    }

    /// Takes a device back.
    pub fn release(&mut self, guard: DeviceGuard)
        requires
            guard.slot < old(self).devices@.len(),
        ensures
            final(self).ids() == old(self).ids(),
            final(self).counts() == old(self).counts().update(
                guard.slot as int,
                one_fewer(old(self).counts()[guard.slot as int]),
            ),
    {
        let device_id: i32 = self.devices[guard.slot].device_id;
        let active_count: usize = self.devices[guard.slot].active_count;
        self.devices[guard.slot] = GpuDevice {
            active_count: if active_count == 0 {
                usize::MAX
            } else {
                active_count - 1
            },
            device_id,
        };
        assert(self.counts() =~= old(self).counts().update(
            guard.slot as int,
            one_fewer(active_count),
        ));
        assert(self.ids() =~= old(self).ids());
    }

    /// Number of devices in the pool.
    pub fn len(&self) -> (n: usize)
        ensures
            n == self.devices@.len(),
            n == self.ids().len(),
    {
        self.devices.len()
    }

    /// Whether the pool has no devices.
    pub fn is_empty(&self) -> (empty: bool)
        ensures
            empty == (self.devices@.len() == 0),
            empty == (self.ids().len() == 0),
    {
        self.devices.len() == 0
    }

    /// The ids of the devices.
    pub fn device_ids(&self) -> (ids: Vec<i32>)
        ensures
            ids@ == self.ids(),
    {
        let mut ids: Vec<i32> = Vec::new();
        let mut i: usize = 0;
        while i < self.devices.len()
            invariant
                i <= self.devices@.len(),
                ids@ == self.ids().take(i as int),
            decreases self.devices.len() - i,
        {
            ids.push(self.devices[i].device_id);
            i = i + 1;
            assert(ids@ =~= self.ids().take(i as int));
        }
        assert(self.ids().take(i as int) =~= self.ids());
        ids
    }
}

/// The counts after `n` devices were acquired and none was released.
pub open spec fn after_acquires(counts: Seq<usize>, n: nat) -> Seq<usize>
    decreases n,
{
    if n == 0 {
        counts
    } else {
        let before = after_acquires(counts, (n - 1) as nat);
        let at = choose|at: int| is_least_contended(before, at);
        before.update(at, one_more(before[at]))
    }
}

/// Releasing a device undoes its acquisition.
pub proof fn release_undoes_acquire(count: usize)
    ensures
        one_fewer(one_more(count)) == count,
        one_more(one_fewer(count)) == count,
{
}

/// There is one least contended device only.
pub proof fn the_least_contended_device_is_unique(counts: Seq<usize>, a: int, b: int)
    requires
        is_least_contended(counts, a),
        is_least_contended(counts, b),
    ensures
        a == b,
{
    if a < b {
        assert(counts[b] < counts[a]);
    } else if b < a {
        assert(counts[a] < counts[b]);
    }
}

/// As long as nothing is released, a fresh pool hands out every device once
/// before it hands out any device twice.
pub proof fn a_fresh_pool_hands_out_each_device_once(counts: Seq<usize>, n: nat)
    requires
        n < counts.len(),
        forall|i: int| 0 <= i < counts.len() ==> #[trigger] counts[i] == 0,
    ensures
        is_least_contended(after_acquires(counts, n), n as int),
        after_acquires(counts, n).len() == counts.len(),
        forall|i: int|
            0 <= i < counts.len() ==> #[trigger] after_acquires(counts, n)[i] == if i < n {
                1usize
            } else {
                0usize
            },
    decreases n,
{
    if n > 0 {
        let m = (n - 1) as nat;
        a_fresh_pool_hands_out_each_device_once(counts, m);
        let before = after_acquires(counts, m);
        let at = choose|at: int| is_least_contended(before, at);
        the_least_contended_device_is_unique(before, at, m as int);
    }
}

}
