use vstd::prelude::*;

use crate::device::Device;
use crate::device::DeviceCall;
use crate::error::Error;
use crate::tracker::AllocationId;
use crate::tracker::AllocationTracker;

verus! {

/// One transient host-visible buffer staged for upload: its buffer
/// handle, byte size, backing memory handle, and the allocation
/// identifier that counts it against the ceiling.
#[derive(Debug, Clone, Copy, PartialEq, Eq, Structural)]
pub struct StagingBuffer {
    pub buffer: u64,
    pub size: u64,
    pub memory: u64,
    pub allocation: AllocationId,
}

/// The allocation identifiers of a list of staging buffers, in order.
pub open spec fn staging_ids(s: Seq<StagingBuffer>) -> Seq<u64> {
    s.map_values(|b: StagingBuffer| b.allocation@)
}

/// The device calls that destroy a list of staging buffers, in order:
/// each buffer destroyed, then its memory freed.
pub open spec fn reclaim_calls(s: Seq<StagingBuffer>) -> Seq<DeviceCall>
    decreases s.len(),
{
    if s.len() == 0 {
        Seq::empty()
    } else {
        reclaim_calls(s.drop_last()).push(DeviceCall::DestroyBuffer { buffer: s.last().buffer })
            .push(DeviceCall::FreeMemory { memory: s.last().memory })
    }
}

/// The pool of staging buffers in flight for the current frame.
///
/// Buffers are append-only per frame and destroyed in one batch, because
/// a single submission-wide fence is cheaper than one fence per upload
/// and suffices: all staged copies of a frame are ordered before that
/// frame's submission.
#[derive(Debug)]
pub struct StagingBufferPool {
    in_flight: Vec<StagingBuffer>,
}

impl StagingBufferPool {
    pub closed spec fn in_flight_spec(self) -> Seq<StagingBuffer> {
        self.in_flight@
    }

    /// The allocation identifiers the in-flight buffers hold.
    pub open spec fn ids(self) -> Seq<u64> {
        staging_ids(self.in_flight_spec())
    }

    /// Every in-flight buffer holds a distinct identifier that is live in
    /// the tracker.
    pub open spec fn registered(self, t: AllocationTracker) -> bool {
        &&& self.ids().no_duplicates()
        &&& forall|i: int| 0 <= i < self.ids().len() ==> t.live_set().contains(
            #[trigger] self.ids()[i],
        )
    }

    /// An empty pool.
    pub fn new() -> (p: StagingBufferPool)
        ensures
            p.in_flight_spec() == Seq::<StagingBuffer>::empty(),
            forall|t: AllocationTracker| p.registered(t),
    {
        let p = StagingBufferPool { in_flight: Vec::new() };
        proof {
            assert(p.ids() =~= Seq::<u64>::empty());
        }
        p
    }

    /// How many staging buffers are in flight.
    pub fn in_flight_count(&self) -> (n: usize)
        ensures
            n == self.in_flight_spec().len(),
    {
        self.in_flight.len()
    }

    /// The in-flight buffers, oldest first.
    pub fn in_flight(&self) -> (r: &Vec<StagingBuffer>)
        ensures
            r@ == self.in_flight_spec(),
    {
        &self.in_flight
    }

    /// Stages a payload of `size` bytes: allocates a host-visible,
    /// host-coherent buffer sized to fit, takes an allocation identifier
    /// from the tracker (failing with the tracker's error when the
    /// ceiling is reached, before any device call), records the copy into
    /// the staging command buffer -- opening its recording scope on first
    /// use within the frame -- and appends the buffer to the in-flight
    /// list.
    pub fn stage(
        &mut self,
        device: &mut Device,
        tracker: &mut AllocationTracker,
        staging_command_buffer: u64,
        recording_staging: &mut bool,
        size: u64,
    ) -> (r: Result<StagingBuffer, Error>)
        requires
            old(device).wf(),
            old(tracker).wf(),
            old(self).registered(*old(tracker)),
            old(device).has_buffer(staging_command_buffer),
            old(device).buffer_recording(staging_command_buffer) == *old(recording_staging),
            !old(device).buffer_pass_open(staging_command_buffer),
        ensures
            final(device).wf(),
            final(tracker).wf(),
            final(self).registered(*final(tracker)),
            crate::device::same_config(*old(device), *final(device)),
            final(device).fences_spec() == old(device).fences_spec(),
            final(device).next_spec() >= old(device).next_spec(),
            old(device).calls_spec().is_prefix_of(final(device).calls_spec()),
            final(tracker).max_spec() == old(tracker).max_spec(),
            final(device).has_buffer(staging_command_buffer),
            final(device).buffer_recording(staging_command_buffer) == *final(recording_staging),
            !final(device).buffer_pass_open(staging_command_buffer),
            crate::device::buffers_match_except(
                *old(device),
                *final(device),
                staging_command_buffer,
            ),
            // The ceiling is checked first: reaching it performs no device call.
            r == Err::<StagingBuffer, Error>(Error::AllocationLimitExceeded(
                old(tracker).max_spec(),
            )) <==> !(old(tracker).live_ids().len() < old(tracker).max_spec() && old(
                tracker,
            ).id_bound() < u64::MAX),
            r == Err::<StagingBuffer, Error>(Error::AllocationLimitExceeded(
                old(tracker).max_spec(),
            )) ==> {
                &&& crate::device::device_unchanged(*old(device), *final(device))
                &&& *final(tracker) == *old(tracker)
                &&& final(self).in_flight_spec() == old(self).in_flight_spec()
                &&& *final(recording_staging) == *old(recording_staging)
            },
            r matches Err(e) ==> (e matches Error::AllocationLimitExceeded(m) && m == old(
                tracker,
            ).max_spec() || e matches Error::DeviceCallFailed(c)),
            r is Err ==> {
                &&& *final(tracker) == *old(tracker)
                &&& final(self).in_flight_spec() == old(self).in_flight_spec()
                &&& *final(recording_staging) == *old(recording_staging)
            },
            r matches Ok(sb) ==> {
                &&& !old(tracker).live_set().contains(sb.allocation@)
                &&& final(tracker).live_set() == old(tracker).live_set().insert(sb.allocation@)
                &&& final(tracker).live_ids().len() == old(tracker).live_ids().len() + 1
                &&& sb.size == size
                &&& sb.buffer == old(device).next_spec()
                &&& sb.memory == old(device).next_spec() + 1
                &&& final(device).next_spec() == old(device).next_spec() + 2
                &&& final(self).in_flight_spec() == old(self).in_flight_spec().push(sb)
                &&& *final(recording_staging)
                &&& final(device).buffer_recording(staging_command_buffer)
                &&& (*old(recording_staging) ==> final(device).calls_spec() == old(
                    device,
                ).calls_spec().push(DeviceCall::CreateBuffer { size }).push(
                    DeviceCall::AllocateMemory {
                        size,
                        memory_type: old(device).host_memory_spec(),
                    },
                ).push(DeviceCall::CopyBuffer {
                    buffer: staging_command_buffer,
                    src: sb.buffer,
                    size,
                }))
                &&& (!*old(recording_staging) ==> final(device).calls_spec() == old(
                    device,
                ).calls_spec().push(DeviceCall::CreateBuffer { size }).push(
                    DeviceCall::AllocateMemory {
                        size,
                        memory_type: old(device).host_memory_spec(),
                    },
                ).push(DeviceCall::BeginCommandBuffer { buffer: staging_command_buffer }).push(
                    DeviceCall::CopyBuffer {
                        buffer: staging_command_buffer,
                        src: sb.buffer,
                        size,
                    },
                ))
            },
    {
        // Gate on the allocation ceiling before touching the device.
        if !tracker.can_allocate() {
            proof {
                crate::device::lemma_prefix_to(device.calls_spec(), device.calls_spec());
            }
            return Err(Error::AllocationLimitExceeded(tracker.max_allocations()));
        }
        let buffer = match device.create_buffer(size) {
            Ok(b) => b,
            Err(c) => {
                proof {
                    crate::device::lemma_prefix_to(old(device).calls_spec(), device.calls_spec());
                }
                return Err(Error::DeviceCallFailed(c));
            },
        };
        let memory_type = device.host_visible_memory_type();
        let memory = match device.allocate_memory(size, memory_type) {
            Ok(m) => m,
            Err(c) => {
                proof {
                    crate::device::lemma_prefix_to(old(device).calls_spec(), device.calls_spec());
                }
                return Err(Error::DeviceCallFailed(c));
            },
        };
        let ghost d_pre = *device;
        if !*recording_staging {
            match device.begin_command_buffer(staging_command_buffer) {
                Ok(_) => {},
                Err(c) => {
                    proof {
                        crate::device::lemma_prefix_to(
                            old(device).calls_spec(),
                            device.calls_spec(),
                        );
                    }
                    return Err(Error::DeviceCallFailed(c));
                },
            }
            *recording_staging = true;
        }
        let ghost d_mid = *device;
        proof {
            assert(crate::device::buffers_match_except(d_pre, d_mid, staging_command_buffer));
        }
        device.cmd_copy_buffer(staging_command_buffer, buffer, size);
        let allocation = match tracker.allocate() {
            Ok(id) => id,
            Err(_) => {
                proof {
                    assert(false);
                }
                return vstd::pervasive::unreached();
            },
        };
        proof {
            assert forall|g: u64| #[trigger] device.has_buffer(g) == old(device).has_buffer(
                g,
            ) by {
                assert(device.buffers_spec() == d_mid.buffers_spec());
                assert(d_mid.has_buffer(g) == d_pre.has_buffer(g));
                assert(d_pre.buffers_spec() == old(device).buffers_spec());
            }
            assert forall|g: u64|
                g != staging_command_buffer && old(device).has_buffer(g) implies {
                &&& #[trigger] device.buffer_recording(g) == old(device).buffer_recording(g)
                &&& device.buffer_pass_open(g) == old(device).buffer_pass_open(g)
            } by {
                assert(device.buffers_spec() == d_mid.buffers_spec());
                assert(d_pre.buffers_spec() == old(device).buffers_spec());
                assert(d_pre.has_buffer(g));
                assert(d_mid.buffer_recording(g) == d_pre.buffer_recording(g));
                assert(d_mid.buffer_pass_open(g) == d_pre.buffer_pass_open(g));
            }
        }
        proof {
            crate::device::lemma_prefix_to(old(device).calls_spec(), device.calls_spec());
        }
        let sb = StagingBuffer { buffer, size, memory, allocation };
        let ghost pre = self.in_flight@;
        self.in_flight.push(sb);
        proof {
            assert(self.ids() =~= staging_ids(pre).push(allocation@));
            assert forall|i: int| 0 <= i < self.ids().len() implies final(tracker).live_set()
                .contains(#[trigger] self.ids()[i]) by {
                if i < pre.len() {
                    assert(staging_ids(pre)[i] == old(self).ids()[i]);
                    assert(old(tracker).live_set().contains(old(self).ids()[i]));
                }
            }
            assert forall|p: int, q: int|
                0 <= p < self.ids().len() && 0 <= q < self.ids().len() && p != q
                implies self.ids()[p] != self.ids()[q] by {
                if p < pre.len() && q < pre.len() {
                    assert(old(self).ids()[p] != old(self).ids()[q]);
                } else if p == pre.len() && q < pre.len() {
                    assert(old(tracker).live_set().contains(old(self).ids()[q]));
                } else if q == pre.len() && p < pre.len() {
                    assert(old(tracker).live_set().contains(old(self).ids()[p]));
                }
            }
        }
        Ok(sb)
    }

    /// Destroys every in-flight buffer and its backing memory, frees the
    /// corresponding allocation identifier, and clears the list: exactly
    /// one identifier per staged buffer, returning the live count to its
    /// pre-staging value.
    ///
    /// Safe only once the caller has proven, via the completion fence,
    /// that no submitted command still reads any buffer in the list; the
    /// renderer discharges that with its fence wait before calling this.
    pub fn reclaim_all(&mut self, device: &mut Device, tracker: &mut AllocationTracker)
        requires
            old(device).wf(),
            old(tracker).wf(),
            old(self).registered(*old(tracker)),
        ensures
            final(device).wf(),
            final(tracker).wf(),
            final(self).in_flight_spec() == Seq::<StagingBuffer>::empty(),
            final(self).registered(*final(tracker)),
            crate::device::same_config(*old(device), *final(device)),
            crate::device::same_objects(*old(device), *final(device)),
            final(device).fail_spec() == old(device).fail_spec(),
            final(device).calls_spec() == old(device).calls_spec() + reclaim_calls(
                old(self).in_flight_spec(),
            ),
            final(tracker).max_spec() == old(tracker).max_spec(),
            final(tracker).live_set() == old(tracker).live_set().difference(
                old(self).ids().to_set(),
            ),
            final(tracker).live_ids().len() == old(tracker).live_ids().len() - old(
                self,
            ).in_flight_spec().len(),
    {
        let n: usize = self.in_flight.len();
        let mut i: usize = 0;
        while i < n
            invariant
                old(device).wf(),
                old(tracker).wf(),
                old(self).registered(*old(tracker)),
                device.wf(),
                tracker.wf(),
                n == old(self).in_flight_spec().len(),
                self.in_flight@ == old(self).in_flight@,
                0 <= i <= n,
                crate::device::same_config(*old(device), *device),
                crate::device::same_objects(*old(device), *device),
                device.fail_spec() == old(device).fail_spec(),
                device.calls_spec() == old(device).calls_spec() + reclaim_calls(
                    old(self).in_flight_spec().take(i as int),
                ),
                tracker.max_spec() == old(tracker).max_spec(),
                tracker.id_bound() == old(tracker).id_bound(),
                tracker.live_set() == old(tracker).live_set().difference(
                    old(self).ids().take(i as int).to_set(),
                ),
                tracker.live_ids().len() == old(tracker).live_ids().len() - i,
            decreases n - i,
        {
            let sb = self.in_flight[i];
            proof {
                assert(old(self).ids()[i as int] == sb.allocation@);
                assert(old(tracker).live_set().contains(sb.allocation@));
                assert(!old(self).ids().take(i as int).to_set().contains(sb.allocation@)) by {
                    if old(self).ids().take(i as int).to_set().contains(sb.allocation@) {
                        let j = choose|j: int|
                            0 <= j < i && #[trigger] old(self).ids().take(i as int)[j]
                                == sb.allocation@;
                        assert(old(self).ids()[j] == old(self).ids()[i as int]);
                    }
                }
                assert(tracker.live_set().contains(sb.allocation@));
            }
            device.destroy_buffer(sb.buffer);
            device.free_memory(sb.memory);
            tracker.free(sb.allocation);
            proof {
                assert(old(self).in_flight_spec().take(i as int + 1).drop_last()
                    =~= old(self).in_flight_spec().take(i as int));
                assert(old(self).in_flight_spec().take(i as int + 1).last() == sb);
                assert(old(self).ids().take(i as int + 1).to_set() =~= old(self).ids().take(
                    i as int,
                ).to_set().insert(sb.allocation@)) by {
                    assert forall|x: u64|
                        old(self).ids().take(i as int + 1).to_set().contains(x) <==> old(
                            self,
                        ).ids().take(i as int).to_set().contains(x) || x == sb.allocation@ by {
                        if old(self).ids().take(i as int + 1).to_set().contains(x) {
                            let j = choose|j: int|
                                0 <= j < i + 1 && #[trigger] old(self).ids().take(
                                    i as int + 1,
                                )[j] == x;
                            if j < i {
                                assert(old(self).ids().take(i as int)[j] == x);
                            }
                        }
                        if old(self).ids().take(i as int).to_set().contains(x) {
                            let j = choose|j: int|
                                0 <= j < i && #[trigger] old(self).ids().take(i as int)[j] == x;
                            assert(old(self).ids().take(i as int + 1)[j] == x);
                        }
                        if x == sb.allocation@ {
                            assert(old(self).ids().take(i as int + 1)[i as int] == x);
                        }
                    }
                }
                assert(tracker.live_set() =~= old(tracker).live_set().difference(
                    old(self).ids().take(i as int + 1).to_set(),
                ));
            }
            i = i + 1;
        }
        self.in_flight.clear();
        proof {
            assert(old(self).in_flight_spec().take(n as int) =~= old(self).in_flight_spec());
            assert(old(self).ids().take(n as int) =~= old(self).ids());
            assert(self.ids() =~= Seq::<u64>::empty());
        }
    }
}

/// Staging then reclaiming restores the tracker: identifiers issued for
/// staging are fresh, so removing exactly them returns the live set --
/// and with it the live count -- to its pre-staging value.
pub proof fn lemma_stage_then_reclaim_restores(pre: Set<u64>, staged: Set<u64>)
    requires
        pre.disjoint(staged),
    ensures
        pre.union(staged).difference(staged) == pre,
{
    assert(pre.union(staged).difference(staged) =~= pre);
}

} // verus!
