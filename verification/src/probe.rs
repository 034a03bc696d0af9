//! The VirtIO probing decisions.
//!
//! Probing a memory-mapped region needs two things that only the kernel can
//! do: the transport handshake at the region's registers and, on a match,
//! the construction of the driver. The decisions between them are here. A
//! boot probe ([`AllDevices`]) says which of the two to perform next and is
//! told what came of it.

use vstd::prelude::*;
use axdriver_base::DeviceType;
use core::marker::PhantomData;
use crate::mem::{spec_phys_to_virt, VirtIoHalImpl};

verus! {

/// `axdriver_base::DeviceType`, the device types that a transport handshake
/// can report, with its four variants as that crate defines them.
#[verifier::external_type_specification]
pub struct ExDeviceType(DeviceType);

/// The kind of a device.
#[derive(Clone, Copy, Debug, PartialEq, Eq, Structural)]
pub enum DeviceKind {
    /// Block storage device.
    Block,
    /// Character device.
    Char,
    /// Network device.
    Net,
    /// Graphic display device.
    Display,
}

/// The kind that stands for a device type: the variant of the same name.
pub open spec fn spec_device_kind(ty: DeviceType) -> DeviceKind {
    match ty {
        DeviceType::Block => DeviceKind::Block,
        DeviceType::Char => DeviceKind::Char,
        DeviceType::Net => DeviceKind::Net,
        DeviceType::Display => DeviceKind::Display,
    }
}

/// The kind that stands for a device type: the variant of the same name.
pub fn device_kind(ty: DeviceType) -> (kind: DeviceKind)
    ensures
        kind == spec_device_kind(ty),
{
    match ty {
        DeviceType::Block => DeviceKind::Block,
        DeviceType::Char => DeviceKind::Char,
        DeviceType::Net => DeviceKind::Net,
        DeviceType::Display => DeviceKind::Display,
    }
}

/// A memory-mapped register window, as platform configuration lists it.
#[derive(Clone, Copy, Debug, PartialEq, Eq, Structural)]
pub struct MmioRegion {
    /// Physical address of the first register.
    pub base: usize,
    /// Size of the window in bytes.
    pub size: usize,
}

impl MmioRegion {
    /// The virtual address at which the handshake reads the region's
    /// registers: the translation of its base by the memory bridge, where
    /// that lies within the address space.
    pub fn handshake_address(&self, hal: &VirtIoHalImpl) -> (vaddr: Option<usize>)
        ensures
            spec_phys_to_virt(hal.spec_offset(), self.base) <= usize::MAX ==> vaddr == Some(
                spec_phys_to_virt(hal.spec_offset(), self.base) as usize,
            ),
            spec_phys_to_virt(hal.spec_offset(), self.base) > usize::MAX ==> vaddr is None,
    {
        hal.checked_phys_to_virt(self.base)
    }
}

/// One of the statically known kinds of VirtIO device that can be driven.
#[derive(Clone, Copy, Debug, PartialEq, Eq, Structural)]
pub enum DeviceDescriptor {
    /// The network card.
    Net,
    /// The block device.
    Block,
    /// The display.
    Display,
}

impl DeviceDescriptor {
    /// The kind of device that the descriptor drives.
    pub open spec fn spec_device_type(self) -> DeviceKind {
        match self {
            DeviceDescriptor::Net => DeviceKind::Net,
            DeviceDescriptor::Block => DeviceKind::Block,
            DeviceDescriptor::Display => DeviceKind::Display,
        }
    }

    /// The kind of device that the descriptor drives.
    pub fn device_type(&self) -> (kind: DeviceKind)
        ensures
            kind == self.spec_device_type(),
    {
        match self {
            DeviceDescriptor::Net => DeviceKind::Net,
            DeviceDescriptor::Block => DeviceKind::Block,
            DeviceDescriptor::Display => DeviceKind::Display,
        }
    }
}

/// What the handshake at a region means for one descriptor.
#[derive(Clone, Copy, Debug, PartialEq, Eq, Structural)]
pub enum ProbeVerdict {
    /// No compatible device answered: the region is skipped for this descriptor.
    NoDevice,
    /// A device of another kind answered: the region is left to other descriptors.
    TypeMismatch,
    /// A device of the descriptor's kind answered: construct it.
    TypeMatch,
}

/// The verdict for `descriptor` when the handshake reported `detected`.
pub open spec fn spec_verdict(descriptor: DeviceDescriptor, detected: Option<DeviceKind>)
    -> ProbeVerdict {
    match detected {
        None => ProbeVerdict::NoDevice,
        Some(kind) => if kind == descriptor.spec_device_type() {
            ProbeVerdict::TypeMatch
        } else {
            ProbeVerdict::TypeMismatch
        },
    }
}

/// The verdict for `descriptor` when the handshake reported `detected`.
pub fn verdict(descriptor: DeviceDescriptor, detected: Option<DeviceKind>) -> (v: ProbeVerdict)
    ensures
        v == spec_verdict(descriptor, detected),
{
    match detected {
        None => ProbeVerdict::NoDevice,
        Some(kind) => if kind == descriptor.device_type() {
            ProbeVerdict::TypeMatch
        } else {
            ProbeVerdict::TypeMismatch
        },
    }
}

/// The kinds that stand for what a handshake reported.
pub open spec fn spec_detected_kind(detected: Option<DeviceType>) -> Option<DeviceKind> {
    match detected {
        None => None,
        Some(ty) => Some(spec_device_kind(ty)),
    }
}

/// The kind that stands for what a handshake reported.
pub fn detected_kind(detected: Option<DeviceType>) -> (kind: Option<DeviceKind>)
    ensures
        kind == spec_detected_kind(detected),
{
    match detected {
        None => None,
        Some(ty) => Some(device_kind(ty)),
    }
}

/// Meta information of a kind of VirtIO device.
pub trait VirtIoDevMeta {
    /// The descriptor of the kind.
    spec fn spec_descriptor() -> DeviceDescriptor;

    /// The descriptor of the kind.
    fn descriptor() -> (d: DeviceDescriptor)
        ensures
            d == Self::spec_descriptor(),
    ;
}

/// The VirtIO network card.
pub struct VirtIoNet;

/// The VirtIO block device.
pub struct VirtIoBlk;

/// The VirtIO display.
pub struct VirtIoGpu;

impl VirtIoDevMeta for VirtIoNet {
    open spec fn spec_descriptor() -> DeviceDescriptor {
        DeviceDescriptor::Net
    }

    fn descriptor() -> (d: DeviceDescriptor) {
        DeviceDescriptor::Net
    }
}

impl VirtIoDevMeta for VirtIoBlk {
    open spec fn spec_descriptor() -> DeviceDescriptor {
        DeviceDescriptor::Block
    }

    fn descriptor() -> (d: DeviceDescriptor) {
        DeviceDescriptor::Block
    }
}

impl VirtIoDevMeta for VirtIoGpu {
    open spec fn spec_descriptor() -> DeviceDescriptor {
        DeviceDescriptor::Display
    }

    fn descriptor() -> (d: DeviceDescriptor) {
        DeviceDescriptor::Display
    }
}

/// The common driver of the VirtIO devices of kind `D`.
pub struct VirtIoDriver<D: VirtIoDevMeta + ?Sized>(PhantomData<D>);

impl<D: VirtIoDevMeta> VirtIoDriver<D> {
    /// Judges the handshake at a region for the devices of kind `D`: no
    /// device, a device of another kind, or one to construct.
    pub fn probe_mmio(detected: Option<DeviceType>) -> (v: ProbeVerdict)
        ensures
            v == spec_verdict(D::spec_descriptor(), spec_detected_kind(detected)),
    {
        verdict(D::descriptor(), detected_kind(detected))
    }
}

/// A device that probing constructed.
#[derive(Clone, Copy, Debug, PartialEq, Eq, Structural)]
pub struct ProbedDevice {
    /// Index of its region among the configured regions.
    pub region: usize,
    /// The descriptor that constructed it.
    pub descriptor: DeviceDescriptor,
}

/// What a boot probe does next.
#[derive(Clone, Copy, Debug, PartialEq, Eq, Structural)]
pub enum ProbeAction {
    /// Translate the region's base to its virtual address and attempt the
    /// transport handshake there, then report the device type it gave.
    Handshake { region: MmioRegion, descriptor: DeviceDescriptor },
    /// Construct the device of `descriptor` at `region` with the transport
    /// that the handshake negotiated, then report whether that succeeded.
    Construct { region: MmioRegion, descriptor: DeviceDescriptor },
    /// Every region has been dealt with.
    Done,
}

/// What the kernel reports to a boot probe.
pub enum ProbeEvent {
    /// The handshake asked for gave this.
    Handshake(Option<DeviceKind>),
    /// The construction asked for succeeded, or failed.
    Constructed(bool),
}

/// The state of a boot probe, as a plain value.
pub struct ProbeProgress {
    /// The configured regions, in probe order.
    pub regions: Seq<MmioRegion>,
    /// The known descriptors, in probe order.
    pub descriptors: Seq<DeviceDescriptor>,
    /// Index of the region being probed; the number of regions when done.
    pub region: int,
    /// Index of the descriptor being tried on that region.
    pub descriptor: int,
    /// Whether the handshake matched and the construction is outstanding.
    pub matched: bool,
    /// The devices constructed so far.
    pub devices: Seq<ProbedDevice>,
}

impl ProbeProgress {
    /// The state before anything was probed. Without a descriptor there is
    /// nothing to try, and every region is left unprobed.
    pub open spec fn start(regions: Seq<MmioRegion>, descriptors: Seq<DeviceDescriptor>)
        -> ProbeProgress {
        ProbeProgress {
            regions,
            descriptors,
            region: if descriptors.len() == 0 {
                regions.len() as int
            } else {
                0
            },
            descriptor: 0,
            matched: false,
            devices: Seq::empty(),
        }
    }

    /// Whether the state is one that a boot probe can be in: the cursor is
    /// within the tables, and the devices lie in regions already dealt with,
    /// in the order of their regions and one to a region at most.
    pub open spec fn wf(self) -> bool {
        &&& 0 <= self.region <= self.regions.len() <= usize::MAX
        &&& 0 <= self.descriptor
        &&& self.region < self.regions.len() ==> self.descriptor < self.descriptors.len()
        &&& self.matched ==> self.region < self.regions.len()
        &&& forall|i: int|
            0 <= i < self.devices.len() ==> 0 <= (#[trigger] self.devices[i]).region < self.region
        &&& forall|i: int, j: int|
            0 <= i < j < self.devices.len() ==> (#[trigger] self.devices[i]).region < (
            #[trigger] self.devices[j]).region
    }

    /// Whether every region has been dealt with.
    pub open spec fn done(self) -> bool {
        self.region >= self.regions.len()
    }

    /// The action that the state asks for.
    pub open spec fn action(self) -> ProbeAction {
        if self.done() {
            ProbeAction::Done
        } else if self.matched {
            ProbeAction::Construct {
                region: self.regions[self.region],
                descriptor: self.descriptors[self.descriptor],
            }
        } else {
            ProbeAction::Handshake {
                region: self.regions[self.region],
                descriptor: self.descriptors[self.descriptor],
            }
        }
    }

    /// The state with the cursor on the first descriptor of the next region.
    pub open spec fn next_region(self) -> ProbeProgress {
        ProbeProgress { region: self.region + 1, descriptor: 0, matched: false, ..self }
    }

    /// The state after the handshake asked for reported `detected`. A match
    /// asks for the construction. Anything else moves on to the next
    /// descriptor, and past the last one to the next region, which leaves
    /// this one unprobed. Without a handshake asked for, nothing changes.
    pub open spec fn after_handshake(self, detected: Option<DeviceKind>) -> ProbeProgress {
        if self.done() || self.matched {
            self
        } else if spec_verdict(self.descriptors[self.descriptor], detected)
            == ProbeVerdict::TypeMatch {
            ProbeProgress { matched: true, ..self }
        } else if self.descriptor + 1 < self.descriptors.len() {
            ProbeProgress { descriptor: self.descriptor + 1, ..self }
        } else {
            self.next_region()
        }
    }

    /// The state after the construction asked for succeeded (`ok`) or
    /// failed. Either way the region is done with: a device constructed is
    /// recorded, a failure abandons the region for every descriptor. Without
    /// a construction asked for, nothing changes.
    pub open spec fn after_construction(self, ok: bool) -> ProbeProgress {
        if self.done() || !self.matched {
            self
        } else if ok {
            ProbeProgress {
                devices: self.devices.push(
                    ProbedDevice {
                        region: self.region as usize,
                        descriptor: self.descriptors[self.descriptor],
                    },
                ),
                ..self.next_region()
            }
        } else {
            self.next_region()
        }
    }

    /// The state after one event.
    pub open spec fn after_event(self, event: ProbeEvent) -> ProbeProgress {
        match event {
            ProbeEvent::Handshake(detected) => self.after_handshake(detected),
            ProbeEvent::Constructed(ok) => self.after_construction(ok),
        }
    }

    /// The state after a sequence of events.
    pub open spec fn after_events(self, events: Seq<ProbeEvent>) -> ProbeProgress
        decreases events.len(),
    {
        if events.len() == 0 {
            self
        } else {
            self.after_events(events.drop_last()).after_event(events.last())
        }
    }
}

/// The table of probed devices, with the boot probe that fills it.
pub struct AllDevices {
    regions: Vec<MmioRegion>,
    descriptors: Vec<DeviceDescriptor>,
    region: usize,
    descriptor: usize,
    matched: bool,
    devices: Vec<ProbedDevice>,
}

impl AllDevices {
    /// The state of the probe.
    pub closed spec fn view(&self) -> ProbeProgress {
        ProbeProgress {
            regions: self.regions@,
            descriptors: self.descriptors@,
            region: self.region as int,
            descriptor: self.descriptor as int,
            matched: self.matched,
            devices: self.devices@,
        }
    }

    /// Starts the boot probe: every region of `regions` is to be tried with
    /// every descriptor of `descriptors`, in order.
    pub fn probe_virtio_devices(regions: Vec<MmioRegion>, descriptors: Vec<DeviceDescriptor>) -> (all:
        AllDevices)
        ensures
            all@ == ProbeProgress::start(regions@, descriptors@),
            all@.wf(),
    {
        let count: usize = regions.len();
        let region: usize = if descriptors.len() == 0 {
            count
        } else {
            0
        };
        AllDevices {
            regions,
            descriptors,
            region,
            descriptor: 0,
            matched: false,
            devices: Vec::new(),
        }
    }

    /// The action to perform next.
    pub fn next_action(&self) -> (action: ProbeAction)
        requires
            self@.wf(),
        ensures
            action == self@.action(),
    {
        if self.region >= self.regions.len() {
            ProbeAction::Done
        } else if self.matched {
            ProbeAction::Construct {
                region: self.regions[self.region],
                descriptor: self.descriptors[self.descriptor],
            }
        } else {
            ProbeAction::Handshake {
                region: self.regions[self.region],
                descriptor: self.descriptors[self.descriptor],
            }
        }
    }

    /// Records what the handshake asked for reported, by its kind.
    pub fn on_handshake_kind(&mut self, detected: Option<DeviceKind>)
        requires
            old(self)@.wf(),
        ensures
            final(self)@ == old(self)@.after_handshake(detected),
            final(self)@.wf(),
    {
        if self.region >= self.regions.len() || self.matched {
            return ;
        }
        match verdict(self.descriptors[self.descriptor], detected) {
            ProbeVerdict::TypeMatch => {
                self.matched = true;
            },
            _ => {
                let known: usize = self.descriptors.len();
                if self.descriptor + 1 < known {
                    self.descriptor = self.descriptor + 1;
                } else {
                    self.descriptor = 0;
                    self.region = self.region + 1;
                }
            },
        }
    }

    /// Records what the handshake asked for reported.
    pub fn on_handshake(&mut self, detected: Option<DeviceType>)
        requires
            old(self)@.wf(),
        ensures
            final(self)@ == old(self)@.after_handshake(spec_detected_kind(detected)),
            final(self)@.wf(),
    {
        self.on_handshake_kind(detected_kind(detected))
    }

    /// Records whether the construction asked for succeeded.
    pub fn on_constructed(&mut self, ok: bool)
        requires
            old(self)@.wf(),
        ensures
            final(self)@ == old(self)@.after_construction(ok),
            final(self)@.wf(),
    {
        if self.region >= self.regions.len() || !self.matched {
            return ;
        }
        if ok {
            let device = ProbedDevice {
                region: self.region,
                descriptor: self.descriptors[self.descriptor],
            };
            self.devices.push(device);
        }
        self.matched = false;
        self.descriptor = 0;
        self.region = self.region + 1;
    }

    /// The devices constructed so far, in the order of their regions.
    pub fn devices(&self) -> (devices: &Vec<ProbedDevice>)
        ensures
            devices@ == self@.devices,
    {
        &self.devices
    }
}

/// Whether `later` continues `earlier`: same tables, a cursor that has not
/// gone back, every device of `earlier` still in place, and every device
/// added since in a region that `earlier` had not yet left.
pub open spec fn continues(earlier: ProbeProgress, later: ProbeProgress) -> bool {
    &&& later.regions == earlier.regions
    &&& later.descriptors == earlier.descriptors
    &&& later.region >= earlier.region
    &&& later.devices.len() >= earlier.devices.len()
    &&& forall|i: int|
        0 <= i < earlier.devices.len() ==> #[trigger] later.devices[i] == earlier.devices[i]
    &&& forall|i: int|
        earlier.devices.len() <= i < later.devices.len() ==> (#[trigger] later.devices[i]).region
            >= earlier.region
}

/// The state before anything was probed is well-formed, holds no device,
/// and asks for the handshake of the first descriptor at the first region,
/// if there is a region and a descriptor.
pub proof fn lemma_start(regions: Seq<MmioRegion>, descriptors: Seq<DeviceDescriptor>)
    requires
        regions.len() <= usize::MAX,
    ensures
        ProbeProgress::start(regions, descriptors).wf(),
        ProbeProgress::start(regions, descriptors).devices.len() == 0,
        regions.len() > 0 && descriptors.len() > 0 ==> ProbeProgress::start(
            regions,
            descriptors,
        ).action() == (ProbeAction::Handshake { region: regions[0], descriptor: descriptors[0] }),
        regions.len() == 0 || descriptors.len() == 0 ==> ProbeProgress::start(
            regions,
            descriptors,
        ).action() == ProbeAction::Done,
{
}

/// One event keeps a well-formed state well-formed and continues it.
pub proof fn lemma_event_continues(p: ProbeProgress, event: ProbeEvent)
    requires
        p.wf(),
    ensures
        p.after_event(event).wf(),
        continues(p, p.after_event(event)),
{
    let q = p.after_event(event);
    match event {
        ProbeEvent::Handshake(detected) => {
            assert(q.devices == p.devices);
        },
        ProbeEvent::Constructed(ok) => {
            if !p.done() && p.matched && ok {
                let device = ProbedDevice {
                    region: p.region as usize,
                    descriptor: p.descriptors[p.descriptor],
                };
                assert(q.devices == p.devices.push(device));
                assert forall|i: int| 0 <= i < q.devices.len() implies 0 <= (
                #[trigger] q.devices[i]).region < q.region by {
                    if i < p.devices.len() {
                        assert(q.devices[i] == p.devices[i]);
                    }
                }
                assert forall|i: int, j: int| 0 <= i < j < q.devices.len() implies (
                #[trigger] q.devices[i]).region < (#[trigger] q.devices[j]).region by {
                    assert(q.devices[i] == p.devices[i]);
                    if j < p.devices.len() {
                        assert(q.devices[j] == p.devices[j]);
                    }
                }
            } else {
                assert(q.devices == p.devices);
            }
        },
    }
}

/// Any sequence of events keeps a well-formed state well-formed and
/// continues it: the probe never goes back to a region it has left.
pub proof fn lemma_events_continue(p: ProbeProgress, events: Seq<ProbeEvent>)
    requires
        p.wf(),
    ensures
        p.after_events(events).wf(),
        continues(p, p.after_events(events)),
    decreases events.len(),
{
    if events.len() > 0 {
        let q = p.after_events(events.drop_last());
        lemma_events_continue(p, events.drop_last());
        lemma_event_continues(q, events.last());
    }
}

/// A region yields at most one device: two devices of a well-formed state
/// lie in different regions.
pub proof fn lemma_one_device_per_region(p: ProbeProgress, i: int, j: int)
    requires
        p.wf(),
        0 <= i < p.devices.len(),
        0 <= j < p.devices.len(),
        i != j,
    ensures
        p.devices[i].region != p.devices[j].region,
{
    if i < j {
        assert(p.devices[i].region < p.devices[j].region);
    } else {
        assert(p.devices[j].region < p.devices[i].region);
    }
}

/// The first descriptor that matches claims the region, whether its
/// construction succeeds or fails. Once the construction asked for at a
/// region has been answered, then after any further events the probe is at
/// a later region, so no other descriptor is tried on this one; and the
/// devices in this region are the one just constructed, if the construction
/// succeeded, and none if it failed.
pub proof fn lemma_construction_claims_region(p: ProbeProgress, ok: bool, events: Seq<ProbeEvent>)
    requires
        p.wf(),
        p.action() is Construct,
    ensures
        p.after_construction(ok).region == p.region + 1,
        p.after_construction(ok).after_events(events).region > p.region,
        ok ==> p.after_construction(ok).devices == p.devices.push(
            ProbedDevice { region: p.region as usize, descriptor: p.descriptors[p.descriptor] },
        ),
        !ok ==> p.after_construction(ok).devices == p.devices,
        forall|i: int|
            0 <= i < p.after_construction(ok).after_events(events).devices.len() && (
            #[trigger] p.after_construction(ok).after_events(events).devices[i]).region
                == p.region ==> ok && i == p.devices.len() && p.after_construction(ok).after_events(
                events,
            ).devices[i].descriptor == p.descriptors[p.descriptor],
{
    let q = p.after_construction(ok);
    let r = q.after_events(events);
    lemma_event_continues(p, ProbeEvent::Constructed(ok));
    lemma_events_continue(q, events);
    assert forall|i: int| 0 <= i < r.devices.len() && (#[trigger] r.devices[i]).region
        == p.region implies ok && i == p.devices.len() && r.devices[i].descriptor
        == p.descriptors[p.descriptor] by {
        if i < q.devices.len() {
            assert(r.devices[i] == q.devices[i]);
            if i < p.devices.len() {
                assert(q.devices[i] == p.devices[i]);
                assert(p.devices[i].region < p.region);
            }
        } else {
            assert(r.devices[i].region >= q.region);
        }
    }
}

/// A handshake that does not match constructs nothing: the devices stay as
/// they were, and the region is left for the next descriptor or, past the
/// last one, left unprobed.
pub proof fn lemma_mismatch_constructs_nothing(p: ProbeProgress, detected: Option<DeviceKind>)
    requires
        p.wf(),
        p.action() is Handshake,
        spec_verdict(p.descriptors[p.descriptor], detected) != ProbeVerdict::TypeMatch,
    ensures
        p.after_handshake(detected).devices == p.devices,
        !p.after_handshake(detected).matched,
        p.descriptor + 1 < p.descriptors.len() ==> p.after_handshake(detected).region == p.region
            && p.after_handshake(detected).descriptor == p.descriptor + 1,
        p.descriptor + 1 >= p.descriptors.len() ==> p.after_handshake(detected).region == p.region
            + 1 && p.after_handshake(detected).descriptor == 0,
{
}

/// The index of the first of `descriptors` that drives devices of `kind`,
/// or the number of descriptors if none does.
pub open spec fn spec_first_match(descriptors: Seq<DeviceDescriptor>, kind: DeviceKind) -> int
    decreases descriptors.len(),
{
    if descriptors.len() == 0 {
        0
    } else if descriptors[0].spec_device_type() == kind {
        0
    } else {
        1 + spec_first_match(descriptors.drop_first(), kind)
    }
}

/// The devices that a boot probe constructs in the first `n` regions, when
/// the handshake at region `i` reports `present[i]` whenever it is made and
/// a construction at region `i` succeeds exactly if `constructs[i]`: one
/// device for each region whose device is of a kind that a descriptor
/// drives and whose construction succeeds, constructed by the first such
/// descriptor.
pub open spec fn spec_probe_result(
    descriptors: Seq<DeviceDescriptor>,
    present: Seq<Option<DeviceKind>>,
    constructs: Seq<bool>,
    n: int,
) -> Seq<ProbedDevice>
    decreases n,
{
    if n <= 0 {
        Seq::empty()
    } else {
        let before = spec_probe_result(descriptors, present, constructs, n - 1);
        match present[n - 1] {
            Some(kind) if spec_first_match(descriptors, kind) < descriptors.len() && constructs[n
                - 1] => before.push(
                ProbedDevice {
                    region: (n - 1) as usize,
                    descriptor: descriptors[spec_first_match(descriptors, kind)],
                },
            ),
            _ => before,
        }
    }
}

/// What the hardware answers to the action that `p` asks for.
pub open spec fn spec_answer(p: ProbeProgress, present: Seq<Option<DeviceKind>>, constructs: Seq<bool>)
    -> ProbeEvent {
    if p.matched {
        ProbeEvent::Constructed(constructs[p.region])
    } else {
        ProbeEvent::Handshake(present[p.region])
    }
}

/// The state after the boot probe has been carried on for `steps` actions
/// against that hardware.
pub open spec fn spec_drive(
    p: ProbeProgress,
    present: Seq<Option<DeviceKind>>,
    constructs: Seq<bool>,
    steps: nat,
) -> ProbeProgress
    decreases steps,
{
    if steps == 0 || p.done() {
        p
    } else {
        spec_drive(
            p.after_event(spec_answer(p, present, constructs)),
            present,
            constructs,
            (steps - 1) as nat,
        )
    }
}

/// The number of actions that remain at most until the probe is done.
pub open spec fn spec_remaining(p: ProbeProgress) -> int {
    if p.done() {
        0
    } else {
        (p.regions.len() - p.region - 1) * (p.descriptors.len() + 1) + (p.descriptors.len()
            - p.descriptor) + (if p.matched {
            0int
        } else {
            1int
        })
    }
}

/// Whether the cursor of `p` agrees with that hardware: the devices are
/// those of the regions dealt with, no descriptor before the cursor drives
/// the device of the region at hand, and an outstanding construction is
/// that of its first matching descriptor.
pub open spec fn spec_on_course(
    p: ProbeProgress,
    present: Seq<Option<DeviceKind>>,
    constructs: Seq<bool>,
) -> bool {
    &&& p.wf()
    &&& present.len() == p.regions.len()
    &&& constructs.len() == p.regions.len()
    &&& p.devices == spec_probe_result(p.descriptors, present, constructs, p.region)
    &&& !p.done() ==> match present[p.region] {
        Some(kind) => spec_first_match(p.descriptors, kind) >= p.descriptor && (p.matched
            ==> spec_first_match(p.descriptors, kind) == p.descriptor),
        None => !p.matched,
    }
}

/// The first match is a match, and nothing before it is one.
pub proof fn lemma_first_match(descriptors: Seq<DeviceDescriptor>, kind: DeviceKind)
    ensures
        0 <= spec_first_match(descriptors, kind) <= descriptors.len(),
        spec_first_match(descriptors, kind) < descriptors.len() ==> descriptors[spec_first_match(
            descriptors,
            kind,
        )].spec_device_type() == kind,
        forall|i: int|
            0 <= i < spec_first_match(descriptors, kind) ==> (
            #[trigger] descriptors[i]).spec_device_type() != kind,
    decreases descriptors.len(),
{
    if descriptors.len() > 0 && descriptors[0].spec_device_type() != kind {
        let rest = descriptors.drop_first();
        lemma_first_match(rest, kind);
        assert forall|i: int| 0 <= i < spec_first_match(descriptors, kind) implies (
        #[trigger] descriptors[i]).spec_device_type() != kind by {
            if i > 0 {
                assert(descriptors[i] == rest[i - 1]);
            }
        }
        if spec_first_match(rest, kind) < rest.len() {
            assert(descriptors[spec_first_match(descriptors, kind)] == rest[spec_first_match(
                rest,
                kind,
            )]);
        }
    }
}

/// One action against the hardware keeps the probe on course and brings
/// it nearer to its end.
pub proof fn lemma_drive_step(
    p: ProbeProgress,
    present: Seq<Option<DeviceKind>>,
    constructs: Seq<bool>,
)
    requires
        spec_on_course(p, present, constructs),
        !p.done(),
    ensures
        spec_on_course(p.after_event(spec_answer(p, present, constructs)), present, constructs),
        spec_remaining(p.after_event(spec_answer(p, present, constructs))) < spec_remaining(p),
        spec_remaining(p) >= 1,
{
    let q = p.after_event(spec_answer(p, present, constructs));
    lemma_event_continues(p, spec_answer(p, present, constructs));
    let here = spec_probe_result(p.descriptors, present, constructs, p.region);
    let next = spec_probe_result(p.descriptors, present, constructs, p.region + 1);
    match present[p.region] {
        Some(kind) => {
            lemma_first_match(p.descriptors, kind);
        },
        None => {},
    }
    if q.region == p.region + 1 {
        assert(q.devices == next);
        if !q.done() {
            match present[q.region] {
                Some(kind) => {
                    lemma_first_match(q.descriptors, kind);
                },
                None => {},
            }
        }
        assert((p.regions.len() - p.region - 1) * (p.descriptors.len() + 1) == (p.regions.len()
            - q.region - 1) * (p.descriptors.len() + 1) + (p.descriptors.len() + 1))
            by (nonlinear_arith)
            requires
                q.region == p.region + 1,
        ;
    }
}

/// A boot probe against hardware that answers the same whenever it is
/// asked comes to its end within as many actions as there are regions times
/// descriptors and one more for each region, and then holds exactly the
/// devices of the regions whose device is of a kind that a descriptor drives
/// and whose construction succeeds, each constructed by the first such
/// descriptor.
pub proof fn lemma_boot_probe_result(
    regions: Seq<MmioRegion>,
    descriptors: Seq<DeviceDescriptor>,
    present: Seq<Option<DeviceKind>>,
    constructs: Seq<bool>,
    steps: nat,
)
    requires
        regions.len() <= usize::MAX,
        present.len() == regions.len(),
        constructs.len() == regions.len(),
        steps >= regions.len() * (descriptors.len() + 1),
    ensures
        spec_drive(ProbeProgress::start(regions, descriptors), present, constructs, steps).done(),
        spec_drive(ProbeProgress::start(regions, descriptors), present, constructs, steps).devices
            == spec_probe_result(descriptors, present, constructs, regions.len() as int),
{
    let p = ProbeProgress::start(regions, descriptors);
    lemma_start(regions, descriptors);
    if descriptors.len() == 0 {
        lemma_no_descriptor_no_device(descriptors, present, constructs, regions.len() as int);
    } else if regions.len() > 0 {
        match present[0] {
            Some(kind) => {
                lemma_first_match(descriptors, kind);
            },
            None => {},
        }
        assert(spec_remaining(p) == regions.len() * (descriptors.len() + 1)) by (nonlinear_arith)
            requires
                spec_remaining(p) == (regions.len() - 0 - 1) * (descriptors.len() + 1) + (
                descriptors.len() - 0) + 1,
        ;
    }
    assert(p.devices =~= spec_probe_result(descriptors, present, constructs, p.region));
    lemma_drive(p, present, constructs, steps);
}

/// Without a descriptor no region yields a device.
pub proof fn lemma_no_descriptor_no_device(
    descriptors: Seq<DeviceDescriptor>,
    present: Seq<Option<DeviceKind>>,
    constructs: Seq<bool>,
    n: int,
)
    requires
        descriptors.len() == 0,
    ensures
        spec_probe_result(descriptors, present, constructs, n) == Seq::<ProbedDevice>::empty(),
    decreases n,
{
    if n > 0 {
        lemma_no_descriptor_no_device(descriptors, present, constructs, n - 1);
    }
}

/// A probe on course that is carried on for at least as many actions as
/// remain is done, with the devices of all regions.
pub proof fn lemma_drive(
    p: ProbeProgress,
    present: Seq<Option<DeviceKind>>,
    constructs: Seq<bool>,
    steps: nat,
)
    requires
        spec_on_course(p, present, constructs),
        steps >= spec_remaining(p),
    ensures
        spec_drive(p, present, constructs, steps).done(),
        spec_drive(p, present, constructs, steps).devices == spec_probe_result(
            p.descriptors,
            present,
            constructs,
            p.regions.len() as int,
        ),
    decreases steps,
{
    if p.done() {
        assert(p.region == p.regions.len());
    } else {
        lemma_drive_step(p, present, constructs);
        let q = p.after_event(spec_answer(p, present, constructs));
        lemma_drive(q, present, constructs, (steps - 1) as nat);
    }
}

} // verus!
