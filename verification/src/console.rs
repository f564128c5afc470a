//! The supervising side's own copy of the mixer and the cursor that
//! moves over it. Every action that changes a channel yields the command
//! that makes the real-time side's copy follow; sending it is the
//! caller's part.

use crate::channel::MeterChannel;
use crate::config::{ChannelConfig, Config};
use crate::engine::{build_mixer_state, initial_channels};
use crate::ipc::{
    clamp_db, clamp_volume, lemma_apply_keeps_layout, ChannelState, ControlMsg, MeterData,
    MixerModel, MixerState, VOLUME_MAX_DB, VOLUME_MIN_DB, VOLUME_STEP_DB,
};
use vstd::prelude::*;

verus! {

/// How long a held peak stays before it may fall, in milliseconds.
pub const PEAK_HOLD_DURATION: u64 = 5_000;

/// Which section the cursor is in.
#[derive(Debug, Clone, Copy, PartialEq, Eq, Structural)]
pub enum SelectionType {
    Input,
    Output,
}

/// What the operator asked for with a key.
#[derive(Debug, Clone, Copy, PartialEq, Eq, Structural)]
pub enum Key {
    /// Leave the program.
    Quit,
    /// Move the cursor to the previous channel.
    Left,
    /// Move the cursor to the next channel.
    Right,
    /// Raise the volume by one step.
    Up,
    /// Lower the volume by one step.
    Down,
    /// Flip the mute switch.
    Mute,
    /// Flip the solo switch.
    Solo,
    /// Set the volume to zero decibels.
    Reset,
    /// Move the cursor to the other section.
    Tab,
    /// Any other key.
    Other,
}

/// Where the cursor stands: the section and the position within it.
pub struct Cursor {
    pub section: SelectionType,
    pub channel: usize,
}

impl Cursor {
    /// The cursor one channel back in a mixer of `inputs` inputs and
    /// `outputs` outputs. From the first channel of a section it goes to
    /// the last channel of the other section, or, where the other section
    /// is empty, to the last of its own; in an empty section it stays.
    pub open spec fn previous(self, inputs: nat, outputs: nat) -> Cursor {
        let own = if self.section == SelectionType::Input {
            inputs
        } else {
            outputs
        };
        let other = if self.section == SelectionType::Input {
            outputs
        } else {
            inputs
        };
        if self.channel > 0 {
            Cursor { channel: (self.channel - 1) as usize, ..self }
        } else if own == 0 {
            self
        } else if other > 0 {
            Cursor { section: self.section.other(), channel: (other - 1) as usize }
        } else {
            Cursor { channel: (own - 1) as usize, ..self }
        }
    }

    /// The cursor one channel on. From the last channel of a section, or
    /// from beyond it, it goes to the first channel of the other section,
    /// or, where the other section is empty, to the first of its own.
    pub open spec fn next(self, inputs: nat, outputs: nat) -> Cursor {
        let own = if self.section == SelectionType::Input {
            inputs
        } else {
            outputs
        };
        let other = if self.section == SelectionType::Input {
            outputs
        } else {
            inputs
        };
        if self.channel + 1 < own {
            Cursor { channel: (self.channel + 1) as usize, ..self }
        } else if other > 0 {
            Cursor { section: self.section.other(), channel: 0 }
        } else {
            Cursor { channel: 0, ..self }
        }
    }

    /// The cursor on the first channel of the other section; it stays
    /// where the other section is empty.
    pub open spec fn switched(self, inputs: nat, outputs: nat) -> Cursor {
        let other = if self.section == SelectionType::Input {
            outputs
        } else {
            inputs
        };
        if other > 0 {
            Cursor { section: self.section.other(), channel: 0 }
        } else {
            self
        }
    }

    /// Whether the cursor stands on a channel of the mixer.
    pub open spec fn on_channel(self, inputs: nat, outputs: nat) -> bool {
        match self.section {
            SelectionType::Input => self.channel < inputs,
            SelectionType::Output => self.channel < outputs,
        }
    }
}

impl SelectionType {
    /// The other section.
    pub open spec fn other(self) -> SelectionType {
        match self {
            SelectionType::Input => SelectionType::Output,
            SelectionType::Output => SelectionType::Input,
        }
    }
}

/// The commands that bring a freshly started mixer to the configured
/// volumes of `channels`: one for each channel that has a volume, in
/// order, with the volume brought into range.
pub open spec fn volume_commands(channels: Seq<ChannelConfig>, section: SelectionType) -> Seq<
    ControlMsg,
>
    decreases channels.len(),
{
    if channels.len() == 0 {
        Seq::empty()
    } else {
        let before = volume_commands(channels.drop_last(), section);
        let index = (channels.len() - 1) as usize;
        match channels.last().volume_db {
            Some(v) => before.push(set_volume_command(section, index, clamp_volume(v as int))),
            None => before,
        }
    }
}

/// The commands that bring a freshly started real-time side to the
/// volumes that `config` gives: those of the inputs, then those of the
/// outputs.
pub open spec fn initial_volume_commands(config: &Config) -> Seq<ControlMsg> {
    volume_commands(config.inputs@, SelectionType::Input) + volume_commands(
        config.outputs@,
        SelectionType::Output,
    )
}

/// The command that sets the volume of a channel of `section`.
pub open spec fn set_volume_command(section: SelectionType, channel: usize, volume: int) -> ControlMsg {
    match section {
        SelectionType::Input => ControlMsg::SetInputVolume { channel, volume_db: volume as i32 },
        SelectionType::Output => ControlMsg::SetOutputVolume { channel, volume_db: volume as i32 },
    }
}

/// The mixer after a measurement was taken in at `now`: the channel
/// that the measurement's position names, an input if the position is
/// below the number of inputs and else the output that many positions
/// further, shows the new peaks; a position beyond all channels changes
/// nothing.
pub open spec fn after_meter(m: MixerModel, data: MeterData, now: u64, hold: u64) -> MixerModel {
    let index = data.channel_index as int;
    if index < m.inputs.len() {
        MixerModel {
            inputs: m.inputs.update(index, m.inputs[index].after_meter(data.peaks, now, hold)),
            ..m
        }
    } else if index - m.inputs.len() < m.outputs.len() {
        MixerModel {
            outputs: m.outputs.update(
                index - m.inputs.len(),
                m.outputs[index - m.inputs.len()].after_meter(data.peaks, now, hold),
            ),
            ..m
        }
    } else {
        m
    }
}

/// The mixer after the measurements of `batch` were taken in at `now`,
/// in their order.
pub open spec fn after_meters(m: MixerModel, batch: Seq<MeterData>, now: u64, hold: u64) -> MixerModel
    decreases batch.len(),
{
    if batch.len() == 0 {
        m
    } else {
        after_meter(after_meters(m, batch.drop_last(), now, hold), batch.last(), now, hold)
    }
}

/// Whether `after` is what `before` becomes when the measurements of
/// `taken` are taken in at `now`, and `taken` is what a receiver that
/// knew `ready` to be ready took out of a channel of `capacity` slots in
/// one go, leaving `left` known to be ready. It takes no more than
/// `capacity` measurements. What was known to be ready comes first, in
/// its order; what follows arrived meanwhile. It stops short of
/// `capacity` only when it finds the channel empty, so that what was
/// known to be ready is then all taken and nothing is left.
pub open spec fn took_in(
    before: MixerModel,
    after: MixerModel,
    ready: Seq<MeterData>,
    taken: Seq<MeterData>,
    left: Seq<MeterData>,
    capacity: nat,
    now: u64,
    hold: u64,
) -> bool {
    &&& taken.len() <= capacity
    &&& after == after_meters(before, taken, now, hold)
    &&& forall|k: int| 0 <= k < taken.len() && k < ready.len() ==> taken[k] == ready[k]
    &&& taken.len() < capacity ==> ready.len() <= taken.len() && left.len() == 0
    &&& taken.len() < ready.len() ==> left == ready.skip(taken.len() as int)
}

/// The channel at a position of the flat index space.
pub open spec fn channel_at(m: MixerModel, index: int) -> ChannelState {
    if index < m.inputs.len() {
        m.inputs[index]
    } else {
        m.outputs[index - m.inputs.len()]
    }
}

/// The newest measurement of `batch` for the channel at `index`, if
/// there is one.
pub open spec fn newest_for(batch: Seq<MeterData>, index: int) -> Option<MeterData>
    decreases batch.len(),
{
    if batch.len() == 0 {
        None
    } else if batch.last().channel_index == index {
        Some(batch.last())
    } else {
        newest_for(batch.drop_last(), index)
    }
}

/// Measurements change meters only: the channels stay as many, and each
/// keeps its name, port count, volume and switches.
pub proof fn lemma_meters_keep_channels(
    m: MixerModel,
    batch: Seq<MeterData>,
    now: u64,
    hold: u64,
    index: int,
)
    requires
        0 <= index < m.inputs.len() + m.outputs.len(),
    ensures
        after_meters(m, batch, now, hold).inputs.len() == m.inputs.len(),
        after_meters(m, batch, now, hold).outputs.len() == m.outputs.len(),
        channel_at(after_meters(m, batch, now, hold), index).name == channel_at(m, index).name,
        channel_at(after_meters(m, batch, now, hold), index).port_count == channel_at(
            m,
            index,
        ).port_count,
        channel_at(after_meters(m, batch, now, hold), index).same_setting(channel_at(m, index)),
    decreases batch.len(),
{
    if batch.len() > 0 {
        lemma_meters_keep_channels(m, batch.drop_last(), now, hold, index);
    }
}

/// Only the newest measurement shows: after a batch was taken in, every
/// metered port of a channel shows the peak of the newest measurement
/// that the batch holds for the channel, and a channel for which it
/// holds none shows what it showed before.
pub proof fn lemma_newest_measurement_shows(
    m: MixerModel,
    batch: Seq<MeterData>,
    now: u64,
    hold: u64,
    index: int,
    p: int,
)
    requires
        0 <= index < m.inputs.len() + m.outputs.len(),
        0 <= p < channel_at(m, index).port_count,
        p < 2,
    ensures
        channel_at(after_meters(m, batch, now, hold), index).current_peaks[p] == match newest_for(
            batch,
            index,
        ) {
            Some(data) => data.peaks[p],
            None => channel_at(m, index).current_peaks[p],
        },
    decreases batch.len(),
{
    if batch.len() > 0 {
        lemma_meters_keep_channels(m, batch.drop_last(), now, hold, index);
        lemma_newest_measurement_shows(m, batch.drop_last(), now, hold, index, p);
    }
}

/// The supervising side's state.
pub struct Console {
    mixer_state: MixerState,
    selected_channel: usize,
    selection_type: SelectionType,
    should_quit: bool,
}

impl Console {
    /// The supervising side's copy of the mixer.
    pub closed spec fn state(&self) -> MixerModel {
        self.mixer_state@
    }

    /// Where the cursor stands.
    pub closed spec fn cursor(&self) -> Cursor {
        Cursor { section: self.selection_type, channel: self.selected_channel }
    }

    /// Whether the operator asked to leave.
    pub closed spec fn quitting(&self) -> bool {
        self.should_quit
    }

    /// Every channel is mono or stereo with its volume in range.
    pub open spec fn wf(&self) -> bool {
        self.state().wf()
    }

    /// The command by which the channel under the cursor gets the
    /// volume `volume`, if the cursor stands on a channel.
    pub open spec fn volume_command(&self, volume: int) -> Option<ControlMsg> {
        if self.cursor().on_channel(self.state().inputs.len(), self.state().outputs.len()) {
            Some(set_volume_command(self.cursor().section, self.cursor().channel, volume))
        } else {
            None
        }
    }

    /// The volume of the channel under the cursor.
    pub open spec fn selected_volume(&self) -> int {
        match self.cursor().section {
            SelectionType::Input => self.state().inputs[self.cursor().channel as int].volume_db as int,
            SelectionType::Output => self.state().outputs[self.cursor().channel as int].volume_db as int,
        }
    }

    /// The command by which the channel under the cursor flips its mute
    /// switch, if the cursor stands on a channel.
    pub open spec fn mute_command(&self) -> Option<ControlMsg> {
        if self.cursor().on_channel(self.state().inputs.len(), self.state().outputs.len()) {
            Some(
                match self.cursor().section {
                    SelectionType::Input => ControlMsg::ToggleInputMute {
                        channel: self.cursor().channel,
                    },
                    SelectionType::Output => ControlMsg::ToggleOutputMute {
                        channel: self.cursor().channel,
                    },
                },
            )
        } else {
            None
        }
    }

    /// The command by which the input under the cursor flips its solo
    /// switch, if the cursor stands on an input.
    pub open spec fn solo_command(&self) -> Option<ControlMsg> {
        if self.cursor().section == SelectionType::Input && self.cursor().channel
            < self.state().inputs.len() {
            Some(ControlMsg::ToggleInputSolo { channel: self.cursor().channel })
        } else {
            None
        }
    }

    /// The mixer after `command`, if there is one.
    pub open spec fn followed(m: MixerModel, command: Option<ControlMsg>) -> MixerModel {
        match command {
            Some(msg) => m.apply(msg),
            None => m,
        }
    }

    /// Whether `other` differs from this console in its mixer at most.
    pub open spec fn same_cursor(&self, other: &Console) -> bool {
        &&& self.cursor() == other.cursor()
        &&& self.quitting() == other.quitting()
    }

    /// Whether `other` differs from this console in its cursor at most.
    pub open spec fn same_mixer(&self, other: &Console) -> bool {
        &&& self.state() == other.state()
        &&& self.quitting() == other.quitting()
    }

    /// A console for a validated configuration: every channel starts at
    /// its configured volume brought into range, or at the default where
    /// none is configured, and the cursor is on the first input.
    pub fn new(config: &Config, now: u64) -> (c: Self)
        requires
            config.valid(),
        ensures
            c.wf(),
            c.state().inputs == initial_channels(config.inputs@, true, now),
            c.state().outputs == initial_channels(config.outputs@, true, now),
            c.cursor() == (Cursor { section: SelectionType::Input, channel: 0 }),
            !c.quitting(),
    {
        Self {
            mixer_state: build_mixer_state(config, true, now),
            selected_channel: 0,
            selection_type: SelectionType::Input,
            should_quit: false,
        }
    }

    /// The supervising side's copy of the mixer, for display.
    pub fn mixer_state(&self) -> (m: &MixerState)
        ensures
            m@ == self.state(),
    {
        &self.mixer_state
    }

    /// The position of the cursor within its section.
    pub fn selected_channel(&self) -> (i: usize)
        ensures
            i == self.cursor().channel,
    {
        self.selected_channel
    }

    /// The section the cursor is in.
    pub fn selection_type(&self) -> (s: SelectionType)
        ensures
            s == self.cursor().section,
    {
        self.selection_type
    }

    /// Whether the operator asked to leave.
    pub fn should_quit(&self) -> (q: bool)
        ensures
            q == self.quitting(),
    {
        self.should_quit
    }

    /// Moves the cursor one channel back.
    pub fn select_previous(&mut self)
        ensures
            old(self).same_mixer(final(self)),
            final(self).cursor() == old(self).cursor().previous(
                old(self).state().inputs.len(),
                old(self).state().outputs.len(),
            ),
    {
        let inputs: usize = self.mixer_state.inputs.len();
        let outputs: usize = self.mixer_state.outputs.len();
        let (own, other): (usize, usize) = match self.selection_type {
            SelectionType::Input => (inputs, outputs),
            SelectionType::Output => (outputs, inputs),
        };
        if self.selected_channel > 0 {
            self.selected_channel -= 1;
        } else if own > 0 {
            if other > 0 {
                self.selection_type = flip(self.selection_type);
                self.selected_channel = other - 1;
            } else {
                self.selected_channel = own - 1;
            }
        }
    }

    /// Moves the cursor one channel on.
    pub fn select_next(&mut self)
        ensures
            old(self).same_mixer(final(self)),
            final(self).cursor() == old(self).cursor().next(
                old(self).state().inputs.len(),
                old(self).state().outputs.len(),
            ),
    {
        let inputs: usize = self.mixer_state.inputs.len();
        let outputs: usize = self.mixer_state.outputs.len();
        let (own, other): (usize, usize) = match self.selection_type {
            SelectionType::Input => (inputs, outputs),
            SelectionType::Output => (outputs, inputs),
        };
        if own > 0 && self.selected_channel < own - 1 {
            self.selected_channel += 1;
        } else {
            if other > 0 {
                self.selection_type = flip(self.selection_type);
            }
            self.selected_channel = 0;
        }
    }

    /// Moves the cursor to the first channel of the other section, if
    /// that section has a channel.
    pub fn toggle_section(&mut self)
        ensures
            old(self).same_mixer(final(self)),
            final(self).cursor() == old(self).cursor().switched(
                old(self).state().inputs.len(),
                old(self).state().outputs.len(),
            ),
    {
        let other: usize = match self.selection_type {
            SelectionType::Input => self.mixer_state.outputs.len(),
            SelectionType::Output => self.mixer_state.inputs.len(),
        };
        if other > 0 {
            self.selection_type = flip(self.selection_type);
            self.selected_channel = 0;
        }
    }

    /// Moves the volume of the channel under the cursor by `delta`
    /// thousandths of a decibel, kept in range, and yields the command
    /// that sets the same volume on the real-time side. Where the cursor
    /// stands on no channel, nothing happens.
    pub fn adjust_volume(&mut self, delta: i32) -> (command: Option<ControlMsg>)
        ensures
            old(self).same_cursor(final(self)),
            command == old(self).volume_command(
                clamp_volume(old(self).selected_volume() + delta),
            ),
            final(self).state() == Self::followed(old(self).state(), command),
            old(self).wf() ==> final(self).wf(),
    {
        let current: i64 = match self.selected_volume_db() {
            Some(v) => v as i64,
            None => {
                return None;
            },
        };
        let moved: i64 = current + delta as i64;
        let target: i32 = if moved < VOLUME_MIN_DB as i64 {
            VOLUME_MIN_DB
        } else if moved > VOLUME_MAX_DB as i64 {
            VOLUME_MAX_DB
        } else {
            moved as i32
        };
        let msg = match self.selection_type {
            SelectionType::Input => ControlMsg::SetInputVolume {
                channel: self.selected_channel,
                volume_db: target,
            },
            SelectionType::Output => ControlMsg::SetOutputVolume {
                channel: self.selected_channel,
                volume_db: target,
            },
        };
        proof {
            lemma_apply_keeps_layout(self.state(), msg);
        }
        self.mixer_state.apply_control(msg);
        Some(msg)
    }

    /// The volume of the channel under the cursor, if the cursor stands
    /// on a channel.
    pub fn selected_volume_db(&self) -> (v: Option<i32>)
        ensures
            v is Some <==> self.cursor().on_channel(
                self.state().inputs.len(),
                self.state().outputs.len(),
            ),
            v is Some ==> v->0 == self.selected_volume(),
    {
        match self.selection_type {
            SelectionType::Input => {
                if self.selected_channel < self.mixer_state.inputs.len() {
                    Some(self.mixer_state.inputs[self.selected_channel].volume_db)
                } else {
                    None
                }
            },
            SelectionType::Output => {
                if self.selected_channel < self.mixer_state.outputs.len() {
                    Some(self.mixer_state.outputs[self.selected_channel].volume_db)
                } else {
                    None
                }
            },
        }
    }

    /// Flips the mute switch of the channel under the cursor and yields
    /// the command that flips it on the real-time side.
    pub fn toggle_mute(&mut self) -> (command: Option<ControlMsg>)
        ensures
            old(self).same_cursor(final(self)),
            command == old(self).mute_command(),
            final(self).state() == Self::followed(old(self).state(), command),
            old(self).wf() ==> final(self).wf(),
    {
        let on_channel = self.selected_volume_db().is_some();
        if !on_channel {
            return None;
        }
        let msg = match self.selection_type {
            SelectionType::Input => ControlMsg::ToggleInputMute { channel: self.selected_channel },
            SelectionType::Output => ControlMsg::ToggleOutputMute {
                channel: self.selected_channel,
            },
        };
        proof {
            lemma_apply_keeps_layout(self.state(), msg);
        }
        self.mixer_state.apply_control(msg);
        Some(msg)
    }

    /// Flips the solo switch of the input under the cursor and yields
    /// the command that flips it on the real-time side. Outputs have no
    /// solo switch.
    pub fn toggle_solo(&mut self) -> (command: Option<ControlMsg>)
        ensures
            old(self).same_cursor(final(self)),
            command == old(self).solo_command(),
            final(self).state() == Self::followed(old(self).state(), command),
            old(self).wf() ==> final(self).wf(),
    {
        match self.selection_type {
            SelectionType::Input => {
                if self.selected_channel < self.mixer_state.inputs.len() {
                    let msg = ControlMsg::ToggleInputSolo { channel: self.selected_channel };
                    proof {
                        lemma_apply_keeps_layout(self.state(), msg);
                    }
                    self.mixer_state.apply_control(msg);
                    Some(msg)
                } else {
                    None
                }
            },
            SelectionType::Output => None,
        }
    }

    /// Sets the volume of the channel under the cursor to zero decibels
    /// and yields the command that does so on the real-time side.
    pub fn reset_volume_to_zero(&mut self) -> (command: Option<ControlMsg>)
        ensures
            old(self).same_cursor(final(self)),
            command == old(self).volume_command(0),
            final(self).state() == Self::followed(old(self).state(), command),
            old(self).wf() ==> final(self).wf(),
    {
        let on_channel = self.selected_volume_db().is_some();
        if !on_channel {
            return None;
        }
        let msg = match self.selection_type {
            SelectionType::Input => ControlMsg::SetInputVolume {
                channel: self.selected_channel,
                volume_db: 0,
            },
            SelectionType::Output => ControlMsg::SetOutputVolume {
                channel: self.selected_channel,
                volume_db: 0,
            },
        };
        proof {
            lemma_apply_keeps_layout(self.state(), msg);
        }
        self.mixer_state.apply_control(msg);
        Some(msg)
    }
}

impl Console {
    /// Takes in one measurement at `now`: the channel that its position
    /// names shows the new peaks and holds them as `update_meter` says.
    pub fn apply_meter(&mut self, data: MeterData, now: u64, hold: u64)
        requires
            old(self).wf(),
        ensures
            final(self).wf(),
            old(self).same_cursor(final(self)),
            final(self).state() == after_meter(old(self).state(), data, now, hold),
    {
        let inputs: usize = self.mixer_state.inputs.len();
        let index: usize = data.channel_index;
        if index < inputs {
            assert(self.state().inputs[index as int].wf());
            self.mixer_state.inputs[index].update_meter(data.peaks, now, hold);
            assert(self.state().inputs =~= after_meter(old(self).state(), data, now, hold).inputs);
        } else if index - inputs < self.mixer_state.outputs.len() {
            assert(self.state().outputs[index - inputs].wf());
            self.mixer_state.outputs[index - inputs].update_meter(data.peaks, now, hold);
            assert(self.state().outputs =~= after_meter(
                old(self).state(),
                data,
                now,
                hold,
            ).outputs);
        }
    }

    /// Takes in the measurements that wait in `meters`, in their order,
    /// at most as many as the channel can hold. Those that the receiving
    /// end knew to be ready are taken first; what else is taken arrived
    /// meanwhile. Where `meters` is whole, so that nothing is published
    /// meanwhile, all pending measurements are taken and none is left.
    pub fn process_meter_updates(&mut self, meters: &mut MeterChannel, now: u64, hold: u64)
        requires
            old(self).wf(),
            old(meters).wf(),
            old(meters).can_receive(),
        ensures
            final(self).wf(),
            old(self).same_cursor(final(self)),
            final(meters).wf(),
            final(meters).can_receive(),
            final(meters).can_send() == old(meters).can_send(),
            final(meters).spec_capacity() == old(meters).spec_capacity(),
            exists|taken: Seq<MeterData>| #[trigger]
                took_in(
                    old(self).state(),
                    final(self).state(),
                    old(meters).known_ready(),
                    taken,
                    final(meters).known_ready(),
                    old(meters).spec_capacity(),
                    now,
                    hold,
                ),
            old(meters).is_whole() ==> {
                &&& final(meters).pending() == Seq::<MeterData>::empty()
                &&& final(self).state() == after_meters(
                    old(self).state(),
                    old(meters).pending(),
                    now,
                    hold,
                )
            },
    {
        let limit: usize = meters.capacity();
        let mut taken: usize = 0;
        let ghost ready = meters.known_ready();
        let ghost mut seen = Seq::<MeterData>::empty();
        proof {
            if meters.is_whole() {
                meters.lemma_bounded();
            }
            assert(ready.skip(0) =~= ready);
        }
        while taken < limit
            invariant
                self.wf(),
                old(self).same_cursor(self),
                meters.wf(),
                meters.can_receive(),
                meters.can_send() == old(meters).can_send(),
                meters.spec_capacity() == old(meters).spec_capacity() == limit,
                taken <= limit,
                ready == old(meters).known_ready(),
                seen.len() == taken,
                self.state() == after_meters(old(self).state(), seen, now, hold),
                forall|k: int| 0 <= k < seen.len() && k < ready.len() ==> seen[k] == ready[k],
                seen.len() <= ready.len() ==> meters.known_ready() == ready.skip(
                    seen.len() as int,
                ),
                old(meters).is_whole() ==> {
                    &&& meters.pending().len() + taken <= limit
                    &&& old(meters).pending().len() >= meters.pending().len()
                    &&& meters.pending() == old(meters).pending().skip(
                        old(meters).pending().len() - meters.pending().len(),
                    )
                    &&& self.state() == after_meters(
                        old(self).state(),
                        old(meters).pending().take(
                            old(meters).pending().len() - meters.pending().len(),
                        ),
                        now,
                        hold,
                    )
                },
            decreases limit - taken,
        {
            let ghost waiting = meters.pending();
            let ghost known = meters.known_ready();
            match meters.try_receive() {
                Some(data) => {
                    self.apply_meter(data, now, hold);
                    proof {
                        assert(seen.push(data).drop_last() =~= seen);
                        if seen.len() < ready.len() {
                            assert(known[0] == ready[seen.len() as int]);
                            assert(known.drop_first() =~= ready.skip(seen.len() as int + 1));
                        }
                        seen = seen.push(data);
                        if old(meters).is_whole() {
                            let all = old(meters).pending();
                            let done = all.len() - waiting.len();
                            assert(all.take(done + 1).drop_last() =~= all.take(done));
                        }
                    }
                },
                None => {
                    proof {
                        if old(meters).is_whole() {
                            let all = old(meters).pending();
                            assert(all.take(all.len() as int) =~= all);
                        }
                        assert(took_in(
                            old(self).state(),
                            self.state(),
                            ready,
                            seen,
                            meters.known_ready(),
                            limit as nat,
                            now,
                            hold,
                        ));
                    }
                    return ;
                },
            }
            taken += 1;
        }
        proof {
            assert(took_in(
                old(self).state(),
                self.state(),
                ready,
                seen,
                meters.known_ready(),
                limit as nat,
                now,
                hold,
            ));
        }
    }

    /// Acts on a key. The keys that change a channel yield the command
    /// for the real-time side; the others yield none.
    pub fn handle_key(&mut self, key: Key) -> (command: Option<ControlMsg>)
        ensures
            old(self).wf() ==> final(self).wf(),
            final(self).quitting() == (old(self).quitting() || key == Key::Quit),
            final(self).cursor() == match key {
                Key::Left => old(self).cursor().previous(
                    old(self).state().inputs.len(),
                    old(self).state().outputs.len(),
                ),
                Key::Right => old(self).cursor().next(
                    old(self).state().inputs.len(),
                    old(self).state().outputs.len(),
                ),
                Key::Tab => old(self).cursor().switched(
                    old(self).state().inputs.len(),
                    old(self).state().outputs.len(),
                ),
                _ => old(self).cursor(),
            },
            command == match key {
                Key::Up => old(self).volume_command(
                    clamp_volume(old(self).selected_volume() + VOLUME_STEP_DB),
                ),
                Key::Down => old(self).volume_command(
                    clamp_volume(old(self).selected_volume() - VOLUME_STEP_DB),
                ),
                Key::Reset => old(self).volume_command(0),
                Key::Mute => old(self).mute_command(),
                Key::Solo => old(self).solo_command(),
                _ => None,
            },
            final(self).state() == Self::followed(old(self).state(), command),
    {
        match key {
            Key::Quit => {
                self.should_quit = true;
                None
            },
            Key::Left => {
                self.select_previous();
                None
            },
            Key::Right => {
                self.select_next();
                None
            },
            Key::Up => self.adjust_volume(VOLUME_STEP_DB),
            Key::Down => self.adjust_volume(-VOLUME_STEP_DB),
            Key::Mute => self.toggle_mute(),
            Key::Solo => self.toggle_solo(),
            Key::Reset => self.reset_volume_to_zero(),
            Key::Tab => {
                self.toggle_section();
                None
            },
            Key::Other => None,
        }
    }

    /// The volumes of the inputs and of the outputs, each in channel
    /// order, as they are saved with the configuration.
    pub fn volumes(&self) -> (r: (Vec<i32>, Vec<i32>))
        ensures
            r.0@ == self.state().inputs.map_values(|c: ChannelState| c.volume_db),
            r.1@ == self.state().outputs.map_values(|c: ChannelState| c.volume_db),
    {
        (channel_volumes(&self.mixer_state.inputs), channel_volumes(&self.mixer_state.outputs))
    }
}

/// The volumes of `channels` in their order.
pub fn channel_volumes(channels: &Vec<ChannelState>) -> (r: Vec<i32>)
    ensures
        r@ == channels@.map_values(|c: ChannelState| c.volume_db),
{
    let mut r: Vec<i32> = Vec::new();
    let mut i: usize = 0;
    while i < channels.len()
        invariant
            i <= channels.len(),
            r@ == channels@.take(i as int).map_values(|c: ChannelState| c.volume_db),
        decreases channels.len() - i,
    {
        r.push(channels[i].volume_db);
        i += 1;
    }
    r
}

/// The commands that bring a freshly started real-time side to the
/// configured volumes: those of the inputs, then those of the outputs.
pub fn initial_commands(config: &Config) -> (r: Vec<ControlMsg>)
    ensures
        r@ == initial_volume_commands(config),
{
    let mut r: Vec<ControlMsg> = Vec::new();
    let mut i: usize = 0;
    while i < config.inputs.len()
        invariant
            i <= config.inputs.len(),
            r@ == volume_commands(config.inputs@.take(i as int), SelectionType::Input),
        decreases config.inputs.len() - i,
    {
        proof {
            assert(config.inputs@.take(i + 1).drop_last() =~= config.inputs@.take(i as int));
        }
        match config.inputs[i].volume_db {
            Some(v) => {
                r.push(ControlMsg::SetInputVolume { channel: i, volume_db: clamp_db(v) });
            },
            None => {},
        }
        i += 1;
    }
    assert(config.inputs@.take(config.inputs.len() as int) =~= config.inputs@);
    let ghost first = r@;
    let mut j: usize = 0;
    while j < config.outputs.len()
        invariant
            j <= config.outputs.len(),
            r@ == first + volume_commands(config.outputs@.take(j as int), SelectionType::Output),
        decreases config.outputs.len() - j,
    {
        proof {
            assert(config.outputs@.take(j + 1).drop_last() =~= config.outputs@.take(j as int));
        }
        match config.outputs[j].volume_db {
            Some(v) => {
                r.push(ControlMsg::SetOutputVolume { channel: j, volume_db: clamp_db(v) });
            },
            None => {},
        }
        j += 1;
    }
    assert(config.outputs@.take(config.outputs.len() as int) =~= config.outputs@);
    r
}

/// The other section.
pub fn flip(section: SelectionType) -> (r: SelectionType)
    ensures
        r == section.other(),
{
    match section {
        SelectionType::Input => SelectionType::Output,
        SelectionType::Output => SelectionType::Input,
    }
}

} // verus!
