use crate::types::{
    control_byte, lemma_control_byte_not_enabled, spec_control_byte, Alliance, DsMode, Mode,
    Request, ENABLED,
};
use crate::udp_out::{Joysticks, UdpControlPacket, UdpTag};
use vstd::prelude::*;

verus! {

/// One input reading of a joystick.
#[derive(Clone, Copy, Debug, PartialEq, Eq, Structural)]
pub enum JoystickValue {
    /// Axis `id` (`0..=5`) with its value already scaled to a signed byte.
    Axis { id: u8, value: i8 },
    /// Button `id` (`1..=10`).
    Button { id: u8, pressed: bool },
    /// POV (d-pad) `id` (only `0`), angle in degrees or `-1` when released.
    POV { id: u8, angle: i16 },
}

/// Number of axes, buttons and POVs sent for each joystick.
pub const AXIS_COUNT: usize = 6;

pub const BUTTON_COUNT: usize = 10;

pub const POV_COUNT: usize = 1;

/// The on-wire arrays of one joystick: axes, buttons, POVs.
pub open spec fn default_arrays() -> (Seq<i8>, Seq<bool>, Seq<i16>) {
    (Seq::new(6, |i: int| 0i8), Seq::new(10, |i: int| false), seq![-1i16])
}

/// Applies one reading to the arrays; out-of-range ids change nothing.
pub open spec fn apply_value(s: (Seq<i8>, Seq<bool>, Seq<i16>), v: JoystickValue) -> (
    Seq<i8>,
    Seq<bool>,
    Seq<i16>,
) {
    match v {
        JoystickValue::Axis { id, value } => if id <= 5 {
            (s.0.update(id as int, value), s.1, s.2)
        } else {
            s
        },
        JoystickValue::Button { id, pressed } => if 1 <= id <= 10 {
            (s.0, s.1.update(id - 1, pressed), s.2)
        } else {
            s
        },
        JoystickValue::POV { id, angle } => if id == 0 {
            (s.0, s.1, s.2.update(0, angle))
        } else {
            s
        },
    }
}

/// The arrays after applying every reading in order to the defaults.
pub open spec fn normalize(vals: Seq<JoystickValue>) -> (Seq<i8>, Seq<bool>, Seq<i16>)
    decreases vals.len(),
{
    if vals.len() == 0 {
        default_arrays()
    } else {
        apply_value(normalize(vals.drop_last()), vals.last())
    }
}

/// `t` is the joystick record built from the readings `vals`.
pub open spec fn is_joystick_tag_for(t: UdpTag, vals: Seq<JoystickValue>) -> bool {
    match t {
        UdpTag::Joysticks(j) => {
            &&& j.axes@ == normalize(vals).0
            &&& j.buttons@ == normalize(vals).1
            &&& j.povs@ == normalize(vals).2
        },
        _ => false,
    }
}

proof fn lemma_normalize_lens(vals: Seq<JoystickValue>)
    ensures
        normalize(vals).0.len() == 6,
        normalize(vals).1.len() == 10,
        normalize(vals).2.len() == 1,
    decreases vals.len(),
{
    if vals.len() > 0 {
        lemma_normalize_lens(vals.drop_last());
    }
}

/// Builds the joystick record for one joystick's readings.
pub fn joystick_tag(vals: &Vec<JoystickValue>) -> (r: UdpTag)
    ensures
        is_joystick_tag_for(r, vals@),
{
    let mut axes: Vec<i8> = vec![0i8; AXIS_COUNT];
    let mut buttons: Vec<bool> = vec![false; BUTTON_COUNT];
    let mut povs: Vec<i16> = vec![-1i16; POV_COUNT];
    assert(axes@ =~= default_arrays().0);
    assert(buttons@ =~= default_arrays().1);
    assert(povs@ =~= default_arrays().2);
    let mut i: usize = 0;
    while i < vals.len()
        invariant
            i <= vals@.len(),
            (axes@, buttons@, povs@) == normalize(vals@.subrange(0, i as int)),
        decreases vals@.len() - i,
    {
        proof { lemma_normalize_lens(vals@.subrange(0, i as int)); }
        match vals[i] {
            JoystickValue::Axis { id, value } => {
                if id <= 5 {
                    axes[id as usize] = value;
                }
            },
            JoystickValue::Button { id, pressed } => {
                if id >= 1 && id <= 10 {
                    buttons[(id - 1) as usize] = pressed;
                }
            },
            JoystickValue::POV { id, angle } => {
                if id == 0 {
                    povs[0] = angle;
                }
            },
        }
        i += 1;
        assert(vals@.subrange(0, i as int).drop_last() =~= vals@.subrange(0, i - 1));
        assert((axes@, buttons@, povs@) == normalize(vals@.subrange(0, i as int)));
    }
    assert(vals@.subrange(0, vals@.len() as int) =~= vals@);
    UdpTag::Joysticks(Joysticks::new(axes, buttons, povs))
}

/// What a [`SendState`] holds, as plain values.
pub struct SendStateView {
    pub mode: Mode,
    pub seqnum: u16,
    pub enabled: bool,
    pub estopped: bool,
    pub alliance: Alliance,
    pub pending_udp: Seq<UdpTag>,
    pub pending_request: Option<Request>,
    pub ds_mode: DsMode,
}

impl SendStateView {
    /// An estopped robot is never enabled.
    pub open spec fn inv(self) -> bool {
        self.estopped ==> !self.enabled
    }

    pub open spec fn with_mode(self, m: Mode) -> SendStateView {
        SendStateView { mode: m, ..self }
    }

    /// The state after a control packet was built: nothing left pending.
    pub open spec fn drained(self) -> SendStateView {
        SendStateView { pending_udp: Seq::empty(), pending_request: None, ..self }
    }
}

/// The seqnum after one increment, wrapping at 2^16.
pub open spec fn next_seqnum(s: u16) -> u16 {
    ((s + 1) % 0x10000) as u16
}

impl SendStateView {
    /// One tick of the UDP engine: a control packet is built, which drains
    /// what was pending, and the seqnum advances once the packet is sent.
    pub open spec fn after_tick(self) -> SendStateView {
        SendStateView { seqnum: next_seqnum(self.seqnum), ..self.drained() }
    }

    /// The state after `n` ticks.
    pub open spec fn after_ticks(self, n: nat) -> SendStateView
        decreases n,
    {
        if n == 0 {
            self
        } else {
            self.after_ticks((n - 1) as nat).after_tick()
        }
    }
}

/// Over consecutive ticks from a state with seqnum `s`, the packet built at
/// tick `k` carries seqnum `s + k` modulo 2^16.
pub proof fn lemma_consecutive_seqnums(v: SendStateView, k: nat)
    ensures
        v.after_ticks(k).seqnum == (v.seqnum + k) % 0x10000,
    decreases k,
{
    if k > 0 {
        lemma_consecutive_seqnums(v, (k - 1) as nat);
    }
}

/// Setting the same mode twice has the effect of setting it once.
pub proof fn lemma_set_mode_idempotent(v: SendStateView, m: Mode)
    ensures
        v.with_mode(m).with_mode(m) == v.with_mode(m),
{
}

/// State from which each UDP control packet is built.
pub struct SendState {
    /// The mode the robot should be enabled in.
    mode: Mode,
    /// The current sequence number.
    udp_seqnum: u16,
    /// Whether the robot is enabled.
    enabled: bool,
    /// Whether the robot is estopped.
    estopped: bool,
    /// The current alliance of the robot.
    pub alliance: Alliance,
    /// Records to send with the next control packet, in queue order.
    pending_udp: Vec<UdpTag>,
    /// A reboot or code-restart request for the next control packet.
    pending_request: Option<Request>,
    dsmode: DsMode,
}

impl View for SendState {
    type V = SendStateView;

    closed spec fn view(&self) -> SendStateView {
        SendStateView {
            mode: self.mode,
            seqnum: self.udp_seqnum,
            enabled: self.enabled,
            estopped: self.estopped,
            alliance: self.alliance,
            pending_udp: self.pending_udp@,
            pending_request: self.pending_request,
            ds_mode: self.dsmode,
        }
    }
}

impl SendState {
    pub open spec fn inv(&self) -> bool {
        self@.inv()
    }

    pub fn new(alliance: Alliance) -> (r: SendState)
        ensures
            r@ == (SendStateView {
                mode: Mode::Autonomous,
                seqnum: 0,
                enabled: false,
                estopped: false,
                alliance,
                pending_udp: Seq::empty(),
                pending_request: None,
                ds_mode: DsMode::Normal,
            }),
            r.inv(),
    {
        SendState {
            mode: Mode::Autonomous,
            udp_seqnum: 0,
            enabled: false,
            estopped: false,
            alliance,
            pending_udp: Vec::new(),
            pending_request: None,
            dsmode: DsMode::Normal,
        }
    }

    /// Sets the request carried by the next control packet.
    pub fn request(&mut self, request: Request)
        ensures
            final(self)@ == (SendStateView { pending_request: Some(request), ..old(self)@ }),
    {
        self.pending_request = Some(request);
    }

    /// Queues a record for the next control packet.
    pub fn queue_udp(&mut self, tag: UdpTag)
        ensures
            final(self)@ == (SendStateView {
                pending_udp: old(self)@.pending_udp.push(tag),
                ..old(self)@
            }),
    {
        self.pending_udp.push(tag);
    }

    pub fn pending_udp(&self) -> (r: &Vec<UdpTag>)
        ensures
            r@ == self@.pending_udp,
    {
        &self.pending_udp
    }

    pub fn set_alliance(&mut self, alliance: Alliance)
        ensures
            final(self)@ == (SendStateView { alliance, ..old(self)@ }),
    {
        self.alliance = alliance;
    }

    /// Builds the control packet from the current state.
    ///
    /// `joysticks` holds the readings of each joystick, as the supplier gave
    /// them (empty when no supplier is set); one joystick record is queued
    /// for each. The pending records and request are handed to the packet and
    /// cleared; the seqnum is left as it is.
    pub fn control(&mut self, joysticks: &Vec<Vec<JoystickValue>>) -> (r: UdpControlPacket)
        requires
            old(self).inv(),
        ensures
            r.seqnum == old(self)@.seqnum,
            r.control == spec_control_byte(
                old(self)@.mode,
                old(self)@.enabled,
                old(self)@.estopped,
                old(self)@.ds_mode,
            ),
            old(self)@.estopped ==> r.control & ENABLED == 0,
            r.request == old(self)@.pending_request,
            r.alliance == old(self)@.alliance,
            r.tags@.len() == old(self)@.pending_udp.len() + joysticks@.len(),
            forall|i: int|
                0 <= i < old(self)@.pending_udp.len() ==> r.tags@[i] == old(self)@.pending_udp[i],
            forall|j: int|
                0 <= j < joysticks@.len() ==> is_joystick_tag_for(
                    #[trigger] r.tags@[old(self)@.pending_udp.len() + j],
                    joysticks@[j]@,
                ),
            final(self)@ == old(self)@.drained(),
            final(self)@.pending_udp.len() == 0,
    {
        let mut tags: Vec<UdpTag> = Vec::new();
        tags.append(&mut self.pending_udp);
        let n0 = tags.len();
        let mut k: usize = 0;
        while k < joysticks.len()
            invariant
                k <= joysticks@.len(),
                n0 == old(self)@.pending_udp.len(),
                tags@.len() == n0 + k,
                forall|i: int| 0 <= i < n0 ==> tags@[i] == old(self)@.pending_udp[i],
                forall|j: int|
                    0 <= j < k ==> is_joystick_tag_for(#[trigger] tags@[n0 + j], joysticks@[j]@),
                self@ == (SendStateView { pending_udp: Seq::empty(), ..old(self)@ }),
            decreases joysticks@.len() - k,
        {
            let tag = joystick_tag(&joysticks[k]);
            let ghost before = tags@;
            tags.push(tag);
            k += 1;
            assert forall|j: int| 0 <= j < k implies is_joystick_tag_for(
                #[trigger] tags@[n0 + j],
                joysticks@[j]@,
            ) by {
                if j < k - 1 {
                    assert(tags@[n0 + j] == before[n0 + j]);
                }
            };
        }
        let control = control_byte(self.mode, self.enabled, self.estopped, self.dsmode);
        proof {
            if self.estopped {
                lemma_control_byte_not_enabled(self.mode, self.estopped, self.dsmode);
            }
        }
        let request = self.pending_request.take();
        UdpControlPacket { seqnum: self.udp_seqnum, control, request, alliance: self.alliance, tags }
    }

    pub fn mode(&self) -> (r: &Mode)
        ensures
            *r == self@.mode,
    {
        &self.mode
    }

    pub fn set_mode(&mut self, mode: Mode)
        ensures
            final(self)@ == old(self)@.with_mode(mode),
    {
        self.mode = mode;
    }

    pub fn ds_mode(&self) -> (r: &DsMode)
        ensures
            *r == self@.ds_mode,
    {
        &self.dsmode
    }

    pub fn set_ds_mode(&mut self, mode: DsMode)
        ensures
            final(self)@ == (SendStateView { ds_mode: mode, ..old(self)@ }),
    {
        self.dsmode = mode;
    }

    pub fn increment_seqnum(&mut self)
        ensures
            final(self)@ == (SendStateView { seqnum: next_seqnum(old(self)@.seqnum), ..old(self)@ }),
    {
        self.udp_seqnum = self.udp_seqnum.wrapping_add(1);
    }

    pub fn reset_seqnum(&mut self)
        ensures
            final(self)@ == (SendStateView { seqnum: 0, ..old(self)@ }),
    {
        self.udp_seqnum = 0;
    }

    pub fn seqnum(&self) -> (r: u16)
        ensures
            r == self@.seqnum,
    {
        self.udp_seqnum
    }

    /// Enables the robot, unless it is estopped: an estop latches.
    pub fn enable(&mut self)
        ensures
            final(self)@ == (if old(self)@.estopped {
                old(self)@
            } else {
                SendStateView { enabled: true, ..old(self)@ }
            }),
    {
        if !self.estopped {
            self.enabled = true;
        }
    }

    pub fn disable(&mut self)
        ensures
            final(self)@ == (SendStateView { enabled: false, ..old(self)@ }),
    {
        self.enabled = false;
    }

    pub fn enabled(&self) -> (r: bool)
        ensures
            r == self@.enabled,
    {
        self.enabled
    }

    /// Disables and estops the robot.
    pub fn estop(&mut self)
        ensures
            final(self)@ == (SendStateView { enabled: false, estopped: true, ..old(self)@ }),
    {
        self.disable();
        self.estopped = true;
    }

    pub fn estopped(&self) -> (r: bool)
        ensures
            r == self@.estopped,
    {
        self.estopped
    }
}

} // verus!
