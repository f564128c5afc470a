//! The mixer state model and the messages that cross between the
//! real-time side and the supervising side.

use vstd::prelude::*;

verus! {

/// Lowest volume, in thousandths of a decibel.
pub const VOLUME_MIN_DB: i32 = -60_000;

/// Highest volume, in thousandths of a decibel.
pub const VOLUME_MAX_DB: i32 = 12_000;

/// One fader step, in thousandths of a decibel.
pub const VOLUME_STEP_DB: i32 = 500;

/// Volume of a freshly created channel, in thousandths of a decibel.
pub const VOLUME_DEFAULT_DB: i32 = 0;

/// The value of `v` brought into the permitted volume range.
pub open spec fn clamp_volume(v: int) -> int {
    if v < VOLUME_MIN_DB {
        VOLUME_MIN_DB as int
    } else if v > VOLUME_MAX_DB {
        VOLUME_MAX_DB as int
    } else {
        v
    }
}

/// Whether `v` lies in the permitted volume range.
pub open spec fn volume_in_range(v: int) -> bool {
    VOLUME_MIN_DB <= v <= VOLUME_MAX_DB
}

/// Brings a volume into the permitted range.
pub fn clamp_db(v: i32) -> (r: i32)
    ensures
        r == clamp_volume(v as int),
        volume_in_range(r as int),
{
    if v < VOLUME_MIN_DB {
        VOLUME_MIN_DB
    } else if v > VOLUME_MAX_DB {
        VOLUME_MAX_DB
    } else {
        v
    }
}

/// The gain that a channel applies to a signal.
#[derive(Clone, Copy, Debug, PartialEq, Eq, Structural)]
pub enum Gain {
    /// The signal is multiplied by zero.
    Silent,
    /// The signal is multiplied by ten to the power of a twentieth of the
    /// level in decibels; the level is held in thousandths of a decibel.
    Level(i32),
}

/// One level measurement of one channel over one block.
#[derive(Clone, Copy, Debug)]
pub struct MeterData {
    /// Position of the channel in the flat index space: the inputs in
    /// their configured order, then the outputs in theirs.
    pub channel_index: usize,
    /// Peak of each port, in millionths of full scale.
    pub peaks: [u32; 2],
    /// How many slots of `peaks` carry a measurement.
    pub port_count: usize,
    /// When the measurement was taken, in milliseconds.
    pub timestamp: u64,
}

impl MeterData {
    /// A measurement of a mono channel.
    pub fn mono(channel_index: usize, peak: u32, timestamp: u64) -> (m: Self)
        ensures
            m.channel_index == channel_index,
            m.peaks@ == seq![peak, 0u32],
            m.port_count == 1,
            m.timestamp == timestamp,
    {
        Self { channel_index, peaks: [peak, 0], port_count: 1, timestamp }
    }

    /// A measurement of a stereo channel.
    pub fn stereo(channel_index: usize, peak_l: u32, peak_r: u32, timestamp: u64) -> (m: Self)
        ensures
            m.channel_index == channel_index,
            m.peaks@ == seq![peak_l, peak_r],
            m.port_count == 2,
            m.timestamp == timestamp,
    {
        Self { channel_index, peaks: [peak_l, peak_r], port_count: 2, timestamp }
    }
}

/// A command from the supervising side to the real-time side.
#[derive(Clone, Copy, Debug, PartialEq, Eq, Structural)]
pub enum ControlMsg {
    /// Set the volume of an input channel.
    SetInputVolume { channel: usize, volume_db: i32 },
    /// Set the volume of an output channel.
    SetOutputVolume { channel: usize, volume_db: i32 },
    /// Flip the mute switch of an input channel.
    ToggleInputMute { channel: usize },
    /// Flip the mute switch of an output channel.
    ToggleOutputMute { channel: usize },
    /// Flip the solo switch of an input channel.
    ToggleInputSolo { channel: usize },
    /// Stop processing.
    Quit,
}

/// Milliseconds from `since` to `now`; zero when `since` is not in the past.
pub open spec fn elapsed(now: u64, since: u64) -> int {
    if now >= since {
        now - since
    } else {
        0
    }
}

/// Whether a held peak is replaced by a new measurement: the measurement
/// reaches it, or it has been held for longer than `hold`.
pub open spec fn hold_resets(held: u32, held_since: u64, peak: u32, now: u64, hold: u64) -> bool {
    peak >= held || elapsed(now, held_since) > hold
}

/// State of one channel.
#[derive(Debug)]
pub struct ChannelState {
    /// Display label.
    pub name: String,
    /// Number of ports: one for mono, two for stereo.
    pub port_count: usize,
    /// Volume in thousandths of a decibel.
    pub volume_db: i32,
    /// Whether the channel is muted.
    pub muted: bool,
    /// Whether the channel is soloed; read for inputs only.
    pub soloed: bool,
    /// Latest peak of each port, in millionths of full scale.
    pub current_peaks: [u32; 2],
    /// Held peak of each port, in millionths of full scale.
    pub peak_hold: [u32; 2],
    /// When each held peak was last set, in milliseconds.
    pub peak_hold_time: [u64; 2],
}

impl ChannelState {
    /// The channel is mono or stereo and its volume is in range.
    pub open spec fn wf(&self) -> bool {
        &&& 1 <= self.port_count <= 2
        &&& volume_in_range(self.volume_db as int)
    }

    /// This channel with its volume set to `v`.
    pub open spec fn with_volume(self, v: int) -> ChannelState {
        ChannelState { volume_db: v as i32, ..self }
    }

    /// This channel with its mute switch flipped.
    pub open spec fn with_mute_flipped(self) -> ChannelState {
        ChannelState { muted: !self.muted, ..self }
    }

    /// This channel with its solo switch flipped.
    pub open spec fn with_solo_flipped(self) -> ChannelState {
        ChannelState { soloed: !self.soloed, ..self }
    }

    /// Whether `other` is the same strip as this channel: same name, port
    /// count and meters. Volume and switches may differ.
    pub open spec fn same_strip(self, other: ChannelState) -> bool {
        &&& self.name == other.name
        &&& self.port_count == other.port_count
        &&& self.current_peaks == other.current_peaks
        &&& self.peak_hold == other.peak_hold
        &&& self.peak_hold_time == other.peak_hold_time
    }

    /// Whether `other` is set as this channel is: same volume, same
    /// switches.
    pub open spec fn same_setting(self, other: ChannelState) -> bool {
        &&& self.volume_db == other.volume_db
        &&& self.muted == other.muted
        &&& self.soloed == other.soloed
    }

    /// The gain this channel applies by itself.
    pub open spec fn spec_linear_gain(&self) -> Gain {
        if self.muted {
            Gain::Silent
        } else {
            Gain::Level(self.volume_db)
        }
    }

    /// The meter of port `i`: its latest peak, its held peak, and when
    /// the held peak was set.
    pub open spec fn slot(&self, i: int) -> (u32, u32, u64) {
        (self.current_peaks[i], self.peak_hold[i], self.peak_hold_time[i])
    }

    /// What `update_meter` leaves in the meter of port `i`.
    pub open spec fn metered(&self, i: int, peaks: [u32; 2], now: u64, hold: u64) -> (
        u32,
        u32,
        u64,
    ) {
        if i < self.port_count {
            if hold_resets(self.peak_hold[i], self.peak_hold_time[i], peaks[i], now, hold) {
                (peaks[i], peaks[i], now)
            } else {
                (peaks[i], self.peak_hold[i], self.peak_hold_time[i])
            }
        } else {
            self.slot(i)
        }
    }

    /// This channel after `update_meter`.
    pub open spec fn after_meter(self, peaks: [u32; 2], now: u64, hold: u64) -> ChannelState {
        let left = self.metered(0, peaks, now, hold);
        let right = self.metered(1, peaks, now, hold);
        ChannelState {
            current_peaks: [left.0, right.0],
            peak_hold: [left.1, right.1],
            peak_hold_time: [left.2, right.2],
            ..self
        }
    }

    /// A channel at the default volume, neither muted nor soloed, with
    /// silent meters whose hold starts at `now`.
    pub open spec fn fresh(name: String, port_count: usize, now: u64) -> ChannelState {
        ChannelState {
            name,
            port_count,
            volume_db: VOLUME_DEFAULT_DB,
            muted: false,
            soloed: false,
            current_peaks: [0u32, 0u32],
            peak_hold: [0u32, 0u32],
            peak_hold_time: [now, now],
        }
    }

    /// A channel at the default volume, neither muted nor soloed, with
    /// silent meters whose hold starts at `now`.
    pub fn new(name: String, port_count: usize, now: u64) -> (c: Self)
        ensures
            c == Self::fresh(name, port_count, now),
            1 <= port_count <= 2 ==> c.wf(),
    {
        Self {
            name,
            port_count,
            volume_db: VOLUME_DEFAULT_DB,
            muted: false,
            soloed: false,
            current_peaks: [0, 0],
            peak_hold: [0, 0],
            peak_hold_time: [now, now],
        }
    }

    /// Takes in a new measurement taken at `now`. Each metered port shows
    /// the new peak. Its held peak follows the measurement when that
    /// reaches it or when it has been held for more than `hold`
    /// milliseconds, and the hold starts anew; else it stays.
    pub fn update_meter(&mut self, peaks: [u32; 2], now: u64, hold: u64)
        requires
            old(self).port_count <= 2,
        ensures
            final(self).name == old(self).name,
            final(self).port_count == old(self).port_count,
            final(self).volume_db == old(self).volume_db,
            final(self).muted == old(self).muted,
            final(self).soloed == old(self).soloed,
            final(self).slot(0) == old(self).metered(0, peaks, now, hold),
            final(self).slot(1) == old(self).metered(1, peaks, now, hold),
            *final(self) == old(self).after_meter(peaks, now, hold),
    {
        let count: usize = self.port_count;
        let mut i: usize = 0;
        while i < count
            invariant
                count == old(self).port_count <= 2,
                i <= count,
                self.name == old(self).name,
                self.port_count == old(self).port_count,
                self.volume_db == old(self).volume_db,
                self.muted == old(self).muted,
                self.soloed == old(self).soloed,
                i > 0 ==> self.slot(0) == old(self).metered(0, peaks, now, hold),
                i > 1 ==> self.slot(1) == old(self).metered(1, peaks, now, hold),
                i <= 0 ==> self.slot(0) == old(self).slot(0),
                i <= 1 ==> self.slot(1) == old(self).slot(1),
            decreases count - i,
        {
            let since: u64 = self.peak_hold_time[i];
            let waited: u64 = if now >= since {
                now - since
            } else {
                0
            };
            self.current_peaks[i] = peaks[i];
            if peaks[i] >= self.peak_hold[i] || waited > hold {
                self.peak_hold[i] = peaks[i];
                self.peak_hold_time[i] = now;
            }
            i += 1;
        }
        proof {
            let after = old(self).after_meter(peaks, now, hold);
            assert(self.current_peaks =~= after.current_peaks);
            assert(self.peak_hold =~= after.peak_hold);
            assert(self.peak_hold_time =~= after.peak_hold_time);
        }
    }

    /// Moves the volume by `delta_db` thousandths of a decibel and keeps
    /// it in the permitted range.
    pub fn adjust_volume(&mut self, delta_db: i32)
        ensures
            final(self).volume_db == clamp_volume(old(self).volume_db + delta_db),
            volume_in_range(final(self).volume_db as int),
            final(self).name == old(self).name,
            final(self).port_count == old(self).port_count,
            final(self).muted == old(self).muted,
            final(self).soloed == old(self).soloed,
            final(self).current_peaks == old(self).current_peaks,
            final(self).peak_hold == old(self).peak_hold,
            final(self).peak_hold_time == old(self).peak_hold_time,
    {
        let moved: i64 = self.volume_db as i64 + delta_db as i64;
        if moved < VOLUME_MIN_DB as i64 {
            self.volume_db = VOLUME_MIN_DB;
        } else if moved > VOLUME_MAX_DB as i64 {
            self.volume_db = VOLUME_MAX_DB;
        } else {
            self.volume_db = moved as i32;
        }
    }

    /// Sets the volume to `volume_db` brought into the permitted range.
    pub fn set_volume(&mut self, volume_db: i32)
        ensures
            final(self).volume_db == clamp_volume(volume_db as int),
            volume_in_range(final(self).volume_db as int),
            final(self).name == old(self).name,
            final(self).port_count == old(self).port_count,
            final(self).muted == old(self).muted,
            final(self).soloed == old(self).soloed,
            final(self).current_peaks == old(self).current_peaks,
            final(self).peak_hold == old(self).peak_hold,
            final(self).peak_hold_time == old(self).peak_hold_time,
    {
        self.volume_db = clamp_db(volume_db);
    }

    /// The gain this channel applies by itself: none when muted, else its
    /// volume.
    pub fn get_linear_gain(&self) -> (g: Gain)
        ensures
            g == self.spec_linear_gain(),
    {
        if self.muted {
            Gain::Silent
        } else {
            Gain::Level(self.volume_db)
        }
    }
}

/// Whether port `p` of an input channel with `in_ports` ports feeds port
/// `q` of an output channel. A mono input feeds every output port. A
/// wider input feeds the output port of its own position, and its first
/// port also feeds every output port beyond its width.
pub open spec fn routed(in_ports: int, p: int, q: int) -> bool {
    in_ports == 1 || p == q || (p == 0 && q >= in_ports)
}

/// The routing rule, decided.
pub fn is_routed(in_ports: usize, p: usize, q: usize) -> (r: bool)
    ensures
        r == routed(in_ports as int, p as int, q as int),
{
    in_ports == 1 || p == q || (p == 0 && q >= in_ports)
}

/// The channels of a mixer as sequences.
pub struct MixerModel {
    pub inputs: Seq<ChannelState>,
    pub outputs: Seq<ChannelState>,
}

impl MixerModel {
    /// Whether some input channel is soloed.
    pub open spec fn any_input_soloed(self) -> bool {
        exists|i: int| 0 <= i < self.inputs.len() && (#[trigger] self.inputs[i]).soloed
    }

    /// The gain of input `i` once mute and solo have had their say: a
    /// muted input is silent, and so is one that is not soloed while
    /// another is.
    pub open spec fn input_effective_gain(self, i: int) -> Gain {
        let c = self.inputs[i];
        if c.muted {
            Gain::Silent
        } else if self.any_input_soloed() && !c.soloed {
            Gain::Silent
        } else {
            Gain::Level(c.volume_db)
        }
    }

    /// What port `p` of input `i` adds to port `q` of output `o`: nothing,
    /// or its samples scaled by the input's level and then by the
    /// output's.
    pub open spec fn contribution(self, i: int, p: int, o: int, q: int) -> Option<(i32, i32)> {
        if routed(self.inputs[i].port_count as int, p, q) {
            match (self.input_effective_gain(i), self.outputs[o].spec_linear_gain()) {
                (Gain::Level(a), Gain::Level(b)) => Some((a, b)),
                _ => None,
            }
        } else {
            None
        }
    }

    /// This mixer after one command. A volume is set to the commanded
    /// value brought into range; a switch is flipped; a command for a
    /// channel that does not exist, and the command to stop, change
    /// nothing here.
    pub open spec fn apply(self, msg: ControlMsg) -> MixerModel {
        match msg {
            ControlMsg::SetInputVolume { channel, volume_db } => if channel < self.inputs.len() {
                MixerModel {
                    inputs: self.inputs.update(
                        channel as int,
                        self.inputs[channel as int].with_volume(clamp_volume(volume_db as int)),
                    ),
                    ..self
                }
            } else {
                self
            },
            ControlMsg::SetOutputVolume { channel, volume_db } => if channel < self.outputs.len() {
                MixerModel {
                    outputs: self.outputs.update(
                        channel as int,
                        self.outputs[channel as int].with_volume(clamp_volume(volume_db as int)),
                    ),
                    ..self
                }
            } else {
                self
            },
            ControlMsg::ToggleInputMute { channel } => if channel < self.inputs.len() {
                MixerModel {
                    inputs: self.inputs.update(
                        channel as int,
                        self.inputs[channel as int].with_mute_flipped(),
                    ),
                    ..self
                }
            } else {
                self
            },
            ControlMsg::ToggleOutputMute { channel } => if channel < self.outputs.len() {
                MixerModel {
                    outputs: self.outputs.update(
                        channel as int,
                        self.outputs[channel as int].with_mute_flipped(),
                    ),
                    ..self
                }
            } else {
                self
            },
            ControlMsg::ToggleInputSolo { channel } => if channel < self.inputs.len() {
                MixerModel {
                    inputs: self.inputs.update(
                        channel as int,
                        self.inputs[channel as int].with_solo_flipped(),
                    ),
                    ..self
                }
            } else {
                self
            },
            ControlMsg::Quit => self,
        }
    }

    /// This mixer after the commands of `msgs`, taken in order.
    pub open spec fn apply_all(self, msgs: Seq<ControlMsg>) -> MixerModel
        decreases msgs.len(),
    {
        if msgs.len() == 0 {
            self
        } else {
            self.apply(msgs[0]).apply_all(msgs.drop_first())
        }
    }

    /// Whether `other` has the same channels as this mixer: as many, with
    /// the same names, port counts and meters.
    pub open spec fn same_layout(self, other: MixerModel) -> bool {
        &&& self.inputs.len() == other.inputs.len()
        &&& self.outputs.len() == other.outputs.len()
        &&& forall|i: int|
            0 <= i < self.inputs.len() ==> (#[trigger] self.inputs[i]).same_strip(other.inputs[i])
        &&& forall|i: int|
            0 <= i < self.outputs.len() ==> (#[trigger] self.outputs[i]).same_strip(
                other.outputs[i],
            )
    }

    /// Whether `other` has the same settings as this mixer: as many
    /// channels, each with the same volume and switches. Names, port
    /// counts and meters may differ.
    pub open spec fn same_settings(self, other: MixerModel) -> bool {
        &&& self.inputs.len() == other.inputs.len()
        &&& self.outputs.len() == other.outputs.len()
        &&& forall|i: int|
            0 <= i < self.inputs.len() ==> (#[trigger] self.inputs[i]).same_setting(
                other.inputs[i],
            )
        &&& forall|i: int|
            0 <= i < self.outputs.len() ==> (#[trigger] self.outputs[i]).same_setting(
                other.outputs[i],
            )
    }

    /// Every channel is well formed.
    pub open spec fn wf(self) -> bool {
        &&& forall|i: int| 0 <= i < self.inputs.len() ==> (#[trigger] self.inputs[i]).wf()
        &&& forall|i: int| 0 <= i < self.outputs.len() ==> (#[trigger] self.outputs[i]).wf()
    }
}

/// All channels of a mixer: the inputs and the outputs, each in its
/// configured order.
#[derive(Debug)]
pub struct MixerState {
    pub inputs: Vec<ChannelState>,
    pub outputs: Vec<ChannelState>,
}

impl View for MixerState {
    type V = MixerModel;

    open spec fn view(&self) -> MixerModel {
        MixerModel { inputs: self.inputs@, outputs: self.outputs@ }
    }
}

impl MixerState {
    /// Carries out one command: sets a volume, brought into range, or
    /// flips a switch. A command for a channel that does not exist is
    /// ignored, and the command to stop changes no channel.
    pub fn apply_control(&mut self, msg: ControlMsg)
        ensures
            final(self)@ == old(self)@.apply(msg),
    {
        match msg {
            ControlMsg::SetInputVolume { channel, volume_db } => {
                if channel < self.inputs.len() {
                    self.inputs[channel].volume_db = clamp_db(volume_db);
                }
            },
            ControlMsg::SetOutputVolume { channel, volume_db } => {
                if channel < self.outputs.len() {
                    self.outputs[channel].volume_db = clamp_db(volume_db);
                }
            },
            ControlMsg::ToggleInputMute { channel } => {
                if channel < self.inputs.len() {
                    self.inputs[channel].muted = !self.inputs[channel].muted;
                }
            },
            ControlMsg::ToggleOutputMute { channel } => {
                if channel < self.outputs.len() {
                    self.outputs[channel].muted = !self.outputs[channel].muted;
                }
            },
            ControlMsg::ToggleInputSolo { channel } => {
                if channel < self.inputs.len() {
                    self.inputs[channel].soloed = !self.inputs[channel].soloed;
                }
            },
            ControlMsg::Quit => {},
        }
    }

    /// Whether some input channel is soloed.
    pub fn any_input_soloed(&self) -> (r: bool)
        ensures
            r == self@.any_input_soloed(),
    {
        let mut i: usize = 0;
        while i < self.inputs.len()
            invariant
                i <= self.inputs.len(),
                forall|j: int| 0 <= j < i ==> !(#[trigger] self.inputs@[j]).soloed,
            decreases self.inputs.len() - i,
        {
            if self.inputs[i].soloed {
                assert(self@.inputs[i as int].soloed);
                return true;
            }
            i += 1;
        }
        false
    }

    /// The gain of input `index` once mute and solo have had their say.
    pub fn get_input_effective_gain(&self, index: usize) -> (g: Gain)
        requires
            index < self.inputs.len(),
        ensures
            g == self@.input_effective_gain(index as int),
    {
        if self.inputs[index].muted {
            return Gain::Silent;
        }
        let any_soloed = self.any_input_soloed();
        if any_soloed && !self.inputs[index].soloed {
            return Gain::Silent;
        }
        Gain::Level(self.inputs[index].volume_db)
    }

    /// What port `p` of input `input` adds to port `q` of output
    /// `output`: `None` for nothing, else the input's level and the
    /// output's, by both of which its samples are scaled.
    pub fn contribution(&self, input: usize, p: usize, output: usize, q: usize) -> (r: Option<
        (i32, i32),
    >)
        requires
            input < self.inputs.len(),
            output < self.outputs.len(),
        ensures
            r == self@.contribution(input as int, p as int, output as int, q as int),
    {
        if !is_routed(self.inputs[input].port_count, p, q) {
            return None;
        }
        match (self.get_input_effective_gain(input), self.outputs[output].get_linear_gain()) {
            (Gain::Level(a), Gain::Level(b)) => Some((a, b)),
            _ => None,
        }
    }
}

/// Volumes stay in range: one command leaves the number of channels,
/// their names, port counts and meters as they were, and a mixer whose
/// volumes are in range stays so.
pub proof fn lemma_apply_keeps_layout(m: MixerModel, msg: ControlMsg)
    ensures
        m.same_layout(m.apply(msg)),
        m.wf() ==> m.apply(msg).wf(),
{
}

/// Volumes stay in range under any sequence of commands, and the
/// channels stay the same strips.
pub proof fn lemma_apply_all_keeps_layout(m: MixerModel, msgs: Seq<ControlMsg>)
    ensures
        m.same_layout(m.apply_all(msgs)),
        m.wf() ==> m.apply_all(msgs).wf(),
    decreases msgs.len(),
{
    if msgs.len() > 0 {
        lemma_apply_keeps_layout(m, msgs[0]);
        lemma_apply_all_keeps_layout(m.apply(msgs[0]), msgs.drop_first());
    }
}

/// A command that sets a volume leaves that volume in range, whatever
/// value it carries and whatever the volume was.
pub proof fn lemma_set_volume_in_range(m: MixerModel, channel: usize, volume_db: i32)
    ensures
        channel < m.inputs.len() ==> volume_in_range(
            m.apply(ControlMsg::SetInputVolume { channel, volume_db }).inputs[channel as int].volume_db as int,
        ),
        channel < m.outputs.len() ==> volume_in_range(
            m.apply(ControlMsg::SetOutputVolume { channel, volume_db }).outputs[channel as int].volume_db as int,
        ),
{
}

/// Carrying out a sequence of commands and then one more is carrying out
/// the longer sequence.
pub proof fn lemma_apply_all_push(m: MixerModel, msgs: Seq<ControlMsg>, msg: ControlMsg)
    ensures
        m.apply_all(msgs.push(msg)) == m.apply_all(msgs).apply(msg),
    decreases msgs.len(),
{
    if msgs.len() == 0 {
        assert(msgs.push(msg).drop_first() =~= msgs);
        assert(m.apply(msg).apply_all(msgs) == m.apply(msg));
    } else {
        assert(msgs.push(msg).drop_first() =~= msgs.drop_first().push(msg));
        lemma_apply_all_push(m.apply(msgs[0]), msgs.drop_first(), msg);
    }
}

/// The two copies of the mixer stay in step: when the supervising side
/// and the real-time side have the same settings and both carry out the
/// same command, they have the same settings afterwards, whatever their
/// meters show.
pub proof fn lemma_copies_stay_in_step(a: MixerModel, b: MixerModel, msg: ControlMsg)
    requires
        a.same_settings(b),
    ensures
        a.apply(msg).same_settings(b.apply(msg)),
{
}

/// Mixers with the same settings apply the same gains: each input has
/// the same effective gain in both, and each output the same gain.
pub proof fn lemma_same_settings_same_gain(a: MixerModel, b: MixerModel, i: int, o: int)
    requires
        a.same_settings(b),
        0 <= i < a.inputs.len(),
        0 <= o < a.outputs.len(),
    ensures
        a.input_effective_gain(i) == b.input_effective_gain(i),
        a.outputs[o].spec_linear_gain() == b.outputs[o].spec_linear_gain(),
{
    if b.any_input_soloed() {
        let k = choose|k: int| 0 <= k < b.inputs.len() && (#[trigger] b.inputs[k]).soloed;
        assert(a.inputs[k].soloed);
    }
}

/// Solo is exclusive: while some input is soloed, an input that is not
/// soloed adds nothing to any output port, whatever its volume.
pub proof fn lemma_solo_is_exclusive(m: MixerModel, i: int, p: int, o: int, q: int)
    requires
        0 <= i < m.inputs.len(),
        m.any_input_soloed(),
        !m.inputs[i].soloed,
    ensures
        m.input_effective_gain(i) == Gain::Silent,
        m.contribution(i, p, o, q) is None,
{
}

/// Mute dominates solo: a muted input adds nothing to any output port,
/// soloed or not.
pub proof fn lemma_mute_dominates_solo(m: MixerModel, i: int, p: int, o: int, q: int)
    requires
        0 <= i < m.inputs.len(),
        m.inputs[i].muted,
    ensures
        m.input_effective_gain(i) == Gain::Silent,
        m.contribution(i, p, o, q) is None,
{
}

/// A muted output receives nothing from any input.
pub proof fn lemma_muted_output_is_silent(m: MixerModel, i: int, p: int, o: int, q: int)
    requires
        0 <= o < m.outputs.len(),
        m.outputs[o].muted,
    ensures
        m.contribution(i, p, o, q) is None,
{
}

/// Mono fan-out: in a mixer of one mono input and one stereo output,
/// both unmuted at zero decibels, the input's port reaches both output
/// ports at unity gain, so each carries the input's signal unchanged.
pub proof fn lemma_mono_fans_out(m: MixerModel, q: int)
    requires
        m.inputs.len() == 1,
        m.outputs.len() == 1,
        m.inputs[0].port_count == 1,
        m.outputs[0].port_count == 2,
        !m.inputs[0].muted,
        !m.outputs[0].muted,
        m.inputs[0].volume_db == 0,
        m.outputs[0].volume_db == 0,
        0 <= q < 2,
    ensures
        m.contribution(0, 0, 0, q) == Some((0i32, 0i32)),
{
}

/// A stereo input keeps its sides apart on a stereo output: each port
/// reaches the output port of its own position and no other.
pub proof fn lemma_stereo_keeps_sides(p: int, q: int)
    requires
        0 <= p < 2,
        0 <= q < 2,
    ensures
        routed(2, p, q) <==> p == q,
{
}

/// Peak hold within the hold window: while no more than `hold`
/// milliseconds have passed since the held peak of a port was last set,
/// a new measurement never lowers it, however low the measured peak.
pub proof fn lemma_hold_never_drops_in_window(
    c: ChannelState,
    i: int,
    peaks: [u32; 2],
    now: u64,
    hold: u64,
)
    requires
        0 <= i < 2,
        elapsed(now, c.peak_hold_time[i]) <= hold,
    ensures
        c.metered(i, peaks, now, hold).1 >= c.peak_hold[i],
{
}

/// One measurement as a channel takes it in: the peaks and the time.
pub struct Reading {
    pub peaks: [u32; 2],
    pub now: u64,
}

/// The channel after it took in `readings` in their order.
pub open spec fn after_readings(c: ChannelState, readings: Seq<Reading>, hold: u64) -> ChannelState
    decreases readings.len(),
{
    if readings.len() == 0 {
        c
    } else {
        after_readings(c, readings.drop_last(), hold).after_meter(
            readings.last().peaks,
            readings.last().now,
            hold,
        )
    }
}

/// Whether each of `readings` arrives while the held peak of port `i`
/// is still within its hold: no more than `hold` milliseconds after the
/// held peak was last set.
pub open spec fn all_within_hold(c: ChannelState, i: int, readings: Seq<Reading>, hold: u64) -> bool {
    forall|k: int|
        0 <= k < readings.len() ==> elapsed(
            (#[trigger] readings[k]).now,
            after_readings(c, readings.take(k), hold).peak_hold_time[i],
        ) <= hold
}

/// Peak hold over a run of measurements: as long as every measurement
/// arrives within the hold of the held peak, the held peak at the end is
/// no lower than at the start, however low the measured peaks.
pub proof fn lemma_hold_never_drops_over_readings(
    c: ChannelState,
    i: int,
    readings: Seq<Reading>,
    hold: u64,
)
    requires
        0 <= i < 2,
        all_within_hold(c, i, readings, hold),
    ensures
        after_readings(c, readings, hold).peak_hold[i] >= c.peak_hold[i],
    decreases readings.len(),
{
    if readings.len() > 0 {
        let earlier = readings.drop_last();
        assert forall|k: int| 0 <= k < earlier.len() implies elapsed(
            (#[trigger] earlier[k]).now,
            after_readings(c, earlier.take(k), hold).peak_hold_time[i],
        ) <= hold by {
            assert(earlier.take(k) =~= readings.take(k));
            assert(earlier[k] == readings[k]);
        }
        lemma_hold_never_drops_over_readings(c, i, earlier, hold);
        let k = readings.len() - 1;
        assert(readings.take(k) =~= earlier);
        assert(readings[k] == readings.last());
        lemma_hold_never_drops_in_window(
            after_readings(c, earlier, hold),
            i,
            readings.last().peaks,
            readings.last().now,
            hold,
        );
    }
}

/// Peak hold after the window: once more than `hold` milliseconds have
/// passed, the held peak of a metered port follows the measurement down.
pub proof fn lemma_hold_decays_after_window(
    c: ChannelState,
    i: int,
    peaks: [u32; 2],
    now: u64,
    hold: u64,
)
    requires
        0 <= i < c.port_count,
        elapsed(now, c.peak_hold_time[i]) > hold,
    ensures
        c.metered(i, peaks, now, hold) == (peaks[i], peaks[i], now),
{
}

} // verus!
