//! The real-time side: what happens at each block boundary. At its start
//! the commands that have arrived are carried out; at its end one
//! measurement per channel is published. In between the caller mixes the
//! samples along the routes that `MixerState::plan_routes` lists.

use crate::channel::{
    lemma_offered_step, offered, ControlChannel, MeterChannel, QueueFull, CONTROL_RING_BUFFER_SIZE,
    METER_RING_BUFFER_SIZE,
};
use crate::config::{ChannelConfig, Config};
use crate::console::{initial_commands, initial_volume_commands, took_in, Console};
use crate::ipc::{
    clamp_volume, lemma_apply_all_push, lemma_apply_keeps_layout, ChannelState, ControlMsg,
    MeterData, MixerModel, MixerState,
};
use crate::routing::{
    block_routes, lemma_layout_keeps_port_base, lemma_port_base_bound, ports_fit, Route,
};
use vstd::prelude::*;

verus! {

/// What the caller of the block callback does next.
#[derive(Clone, Copy, Debug, PartialEq, Eq, Structural)]
pub enum Control {
    /// Mix this block and call again for the next.
    Continue,
    /// Stop calling.
    Quit,
}

/// Whether a command to stop is among `msgs`.
pub open spec fn asks_to_quit(msgs: Seq<ControlMsg>) -> bool {
    exists|i: int| 0 <= i < msgs.len() && #[trigger] msgs[i] == ControlMsg::Quit
}

/// Whether `after` and `quit_after` are what the mixer `before` and the
/// stop flag `quit_before` become when the commands of `taken` are
/// carried out in their order, and `taken` is what a receiver that knew
/// `ready` to be ready took out of a channel of `capacity` slots in one
/// go, leaving `left` known to be ready. It takes no more than
/// `capacity` commands. What was known to be ready comes first, in its
/// order; what follows arrived meanwhile. It stops short of `capacity`
/// only when it finds the channel empty, so that what was known to be
/// ready is then all taken and nothing is left.
pub open spec fn carried_out(
    before: MixerModel,
    after: MixerModel,
    quit_before: bool,
    quit_after: bool,
    ready: Seq<ControlMsg>,
    taken: Seq<ControlMsg>,
    left: Seq<ControlMsg>,
    capacity: nat,
) -> bool {
    &&& taken.len() <= capacity
    &&& after == before.apply_all(taken)
    &&& quit_after == (quit_before || asks_to_quit(taken))
    &&& forall|k: int| 0 <= k < taken.len() && k < ready.len() ==> taken[k] == ready[k]
    &&& taken.len() < capacity ==> ready.len() <= taken.len() && left.len() == 0
    &&& taken.len() < ready.len() ==> left == ready.skip(taken.len() as int)
}

/// The measurement published for a channel with `port_count` ports whose
/// ports peaked at `peaks`: the slots beyond its ports read zero.
pub open spec fn meter_of(index: int, port_count: usize, peaks: [u32; 2], now: u64) -> MeterData {
    MeterData {
        channel_index: index as usize,
        peaks: [
            if port_count >= 1 {
                peaks[0]
            } else {
                0
            },
            if port_count >= 2 {
                peaks[1]
            } else {
                0
            },
        ],
        port_count,
        timestamp: now,
    }
}

/// The measurements of one block in the order of their publication: the
/// inputs in their order under their own positions, then the outputs in
/// theirs under positions that go on after the last input.
pub open spec fn block_meters(
    m: MixerModel,
    input_peaks: Seq<[u32; 2]>,
    output_peaks: Seq<[u32; 2]>,
    now: u64,
) -> Seq<MeterData> {
    Seq::new(
        m.inputs.len(),
        |i: int| meter_of(i, m.inputs[i].port_count, input_peaks[i], now),
    ) + Seq::new(
        m.outputs.len(),
        |j: int| meter_of(m.inputs.len() + j, m.outputs[j].port_count, output_peaks[j], now),
    )
}

/// The flat index space: a block yields one measurement per channel,
/// and the measurement at place `k` carries position `k`. Positions below
/// the number of inputs belong to the inputs in their order; the others
/// belong to the outputs in theirs.
pub proof fn lemma_block_meter_positions(
    m: MixerModel,
    input_peaks: Seq<[u32; 2]>,
    output_peaks: Seq<[u32; 2]>,
    now: u64,
    k: int,
)
    requires
        m.inputs.len() + m.outputs.len() <= usize::MAX,
        0 <= k < m.inputs.len() + m.outputs.len(),
    ensures
        block_meters(m, input_peaks, output_peaks, now).len() == m.inputs.len() + m.outputs.len(),
        block_meters(m, input_peaks, output_peaks, now)[k].channel_index == k,
        block_meters(m, input_peaks, output_peaks, now)[k] == if k < m.inputs.len() {
            meter_of(k, m.inputs[k].port_count, input_peaks[k], now)
        } else {
            meter_of(
                k,
                m.outputs[k - m.inputs.len()].port_count,
                output_peaks[k - m.inputs.len()],
                now,
            )
        },
{
}

/// The state in which a configured channel starts. Its volume is the
/// default, or, where `restore` is set and the configuration gives one,
/// the configured volume brought into range.
pub open spec fn initial_channel(c: ChannelConfig, restore: bool, now: u64) -> ChannelState {
    ChannelState::fresh(c.name, c.spec_port_count() as usize, now).with_volume(
        if restore && c.volume_db is Some {
            clamp_volume(c.volume_db->0 as int)
        } else {
            0
        },
    )
}

/// The states in which the configured channels start, in their order.
pub open spec fn initial_channels(channels: Seq<ChannelConfig>, restore: bool, now: u64) -> Seq<
    ChannelState,
> {
    Seq::new(channels.len(), |i: int| initial_channel(channels[i], restore, now))
}

/// Builds the starting states of the configured channels.
pub fn build_channels(channels: &Vec<ChannelConfig>, restore: bool, now: u64) -> (r: Vec<
    ChannelState,
>)
    ensures
        r@ == initial_channels(channels@, restore, now),
{
    let mut r: Vec<ChannelState> = Vec::new();
    let mut i: usize = 0;
    while i < channels.len()
        invariant
            i <= channels.len(),
            r@ == initial_channels(channels@.take(i as int), restore, now),
        decreases channels.len() - i,
    {
        let c = &channels[i];
        let mut state = ChannelState::new(c.name.clone(), c.port_count(), now);
        if restore {
            match c.volume_db {
                Some(v) => {
                    state.set_volume(v);
                },
                None => {},
            }
        }
        r.push(state);
        i += 1;
    }
    r
}

/// Builds the mixer that a configuration describes.
pub fn build_mixer_state(config: &Config, restore: bool, now: u64) -> (m: MixerState)
    ensures
        m@.inputs == initial_channels(config.inputs@, restore, now),
        m@.outputs == initial_channels(config.outputs@, restore, now),
        config.valid() ==> m@.wf(),
{
    let m = MixerState {
        inputs: build_channels(&config.inputs, restore, now),
        outputs: build_channels(&config.outputs, restore, now),
    };
    m
}

/// Builds the measurement of one channel.
pub fn make_meter(index: usize, port_count: usize, peaks: [u32; 2], now: u64) -> (m: MeterData)
    ensures
        m == meter_of(index as int, port_count, peaks, now),
{
    let left: u32 = if port_count >= 1 {
        peaks[0]
    } else {
        0
    };
    let right: u32 = if port_count >= 2 {
        peaks[1]
    } else {
        0
    };
    MeterData { channel_index: index, peaks: [left, right], port_count, timestamp: now }
}

/// The state that the block callback owns.
pub struct ProcessHandler {
    mixer_state: MixerState,
    quit: bool,
}

impl ProcessHandler {
    /// The mixer as it stands.
    pub closed spec fn state(&self) -> MixerModel {
        self.mixer_state@
    }

    /// Whether a stop was asked for.
    pub closed spec fn quit_requested(&self) -> bool {
        self.quit
    }

    /// The positions of all channels fit the flat index space and the
    /// ports of both directions can be numbered.
    pub open spec fn wf(&self) -> bool {
        &&& self.state().inputs.len() + self.state().outputs.len() <= usize::MAX
        &&& ports_fit(self.state())
    }

    /// A handler for the given channels, not asked to stop.
    pub fn new(mixer_state: MixerState) -> (h: Self)
        ensures
            h.state() == mixer_state@,
            !h.quit_requested(),
    {
        Self { mixer_state, quit: false }
    }

    /// The mixer as it stands, for the routing decisions of a block.
    pub fn mixer_state(&self) -> (m: &MixerState)
        ensures
            m@ == self.state(),
    {
        &self.mixer_state
    }

    /// Whether a stop was asked for.
    pub fn is_quit_requested(&self) -> (q: bool)
        ensures
            q == self.quit_requested(),
    {
        self.quit
    }

    /// Asks for a stop; the next block boundary reports it.
    pub fn request_quit(&mut self)
        ensures
            final(self).state() == old(self).state(),
            final(self).quit_requested(),
    {
        self.quit = true;
    }

    /// Carries out one command. The command to stop is remembered; every
    /// other command changes the mixer as `MixerModel::apply` says.
    pub fn apply_control(&mut self, msg: ControlMsg)
        ensures
            final(self).state() == old(self).state().apply(msg),
            final(self).quit_requested() == (old(self).quit_requested() || msg
                == ControlMsg::Quit),
    {
        self.mixer_state.apply_control(msg);
        if let ControlMsg::Quit = msg {
            self.quit = true;
        }
    }

    /// Takes the commands that wait in `control` and carries them out in
    /// their order, at most as many as the channel can hold. Those that
    /// the receiving end knew to be ready are taken first; what else is
    /// taken arrived meanwhile. Nothing but the commands taken changes
    /// the mixer or raises the stop flag, and the channels keep their
    /// number, names, port counts and meters whatever arrives. Where
    /// `control` is whole, so that nothing is sent meanwhile, all pending
    /// commands are taken and none is left.
    pub fn process_control_messages(&mut self, control: &mut ControlChannel)
        requires
            old(control).wf(),
            old(control).can_receive(),
        ensures
            final(control).wf(),
            final(control).can_receive(),
            final(control).can_send() == old(control).can_send(),
            final(control).spec_capacity() == old(control).spec_capacity(),
            final(control).known_unread() == old(control).known_unread(),
            exists|taken: Seq<ControlMsg>| #[trigger]
                carried_out(
                    old(self).state(),
                    final(self).state(),
                    old(self).quit_requested(),
                    final(self).quit_requested(),
                    old(control).known_ready(),
                    taken,
                    final(control).known_ready(),
                    old(control).spec_capacity(),
                ),
            old(self).state().same_layout(final(self).state()),
            old(self).state().wf() ==> final(self).state().wf(),
            old(self).quit_requested() ==> final(self).quit_requested(),
            old(control).is_whole() ==> {
                &&& final(control).pending() == Seq::<ControlMsg>::empty()
                &&& final(self).state() == old(self).state().apply_all(old(control).pending())
                &&& final(self).quit_requested() == (old(self).quit_requested() || asks_to_quit(
                    old(control).pending(),
                ))
            },
    {
        let limit: usize = control.capacity();
        let mut taken: usize = 0;
        let ghost ready = control.known_ready();
        let ghost mut seen = Seq::<ControlMsg>::empty();
        proof {
            if control.is_whole() {
                control.lemma_bounded();
            }
            assert(ready.skip(0) =~= ready);
        }
        while taken < limit
            invariant
                control.wf(),
                control.can_receive(),
                control.can_send() == old(control).can_send(),
                control.spec_capacity() == old(control).spec_capacity() == limit,
                control.known_unread() == old(control).known_unread(),
                taken <= limit,
                ready == old(control).known_ready(),
                seen.len() == taken,
                self.state() == old(self).state().apply_all(seen),
                self.quit_requested() == (old(self).quit_requested() || asks_to_quit(seen)),
                forall|k: int| 0 <= k < seen.len() && k < ready.len() ==> seen[k] == ready[k],
                seen.len() <= ready.len() ==> control.known_ready() == ready.skip(
                    seen.len() as int,
                ),
                old(self).state().same_layout(self.state()),
                old(self).state().wf() ==> self.state().wf(),
                old(self).quit_requested() ==> self.quit_requested(),
                old(control).is_whole() ==> {
                    &&& control.pending().len() + taken <= limit
                    &&& old(control).pending().len() >= control.pending().len()
                    &&& control.pending() == old(control).pending().skip(
                        old(control).pending().len() - control.pending().len(),
                    )
                    &&& self.state() == old(self).state().apply_all(
                        old(control).pending().take(
                            old(control).pending().len() - control.pending().len(),
                        ),
                    )
                    &&& self.quit_requested() == (old(self).quit_requested() || asks_to_quit(
                        old(control).pending().take(
                            old(control).pending().len() - control.pending().len(),
                        ),
                    ))
                },
            decreases limit - taken,
        {
            let ghost before = self.state();
            let ghost waiting = control.pending();
            let ghost known = control.known_ready();
            match control.try_receive() {
                Some(msg) => {
                    self.apply_control(msg);
                    proof {
                        lemma_apply_keeps_layout(before, msg);
                        lemma_apply_all_push(old(self).state(), seen, msg);
                        lemma_asks_push(seen, msg);
                        if seen.len() < ready.len() {
                            assert(known[0] == ready[seen.len() as int]);
                            assert(known.drop_first() =~= ready.skip(seen.len() as int + 1));
                        }
                        seen = seen.push(msg);
                        if old(control).is_whole() {
                            let all = old(control).pending();
                            let done = all.len() - waiting.len();
                            assert(all.take(done + 1) =~= all.take(done).push(msg));
                            lemma_apply_all_push(old(self).state(), all.take(done), msg);
                            lemma_asks_push(all.take(done), msg);
                        }
                    }
                },
                None => {
                    proof {
                        if old(control).is_whole() {
                            let all = old(control).pending();
                            assert(all.take(all.len() as int) =~= all);
                        }
                        assert(carried_out(
                            old(self).state(),
                            self.state(),
                            old(self).quit_requested(),
                            self.quit_requested(),
                            ready,
                            seen,
                            control.known_ready(),
                            limit as nat,
                        ));
                    }
                    return ;
                },
            }
            taken += 1;
        }
        proof {
            assert(carried_out(
                old(self).state(),
                self.state(),
                old(self).quit_requested(),
                self.quit_requested(),
                ready,
                seen,
                control.known_ready(),
                limit as nat,
            ));
        }
    }

    /// Ends a block: publishes one measurement per channel, the inputs
    /// first, each with the peaks the caller measured, `input_peaks`
    /// before the gain and `output_peaks` after the mix. A measurement
    /// for which `meters` has no room is dropped. Where the sending end
    /// knows of room for all of them, all are published and join what it
    /// counts as unread, in their order. Where `meters` is
    /// whole, so that nothing is received meanwhile, the channel then
    /// holds what `offered` says.
    pub fn publish_meters(
        &self,
        meters: &mut MeterChannel,
        input_peaks: &Vec<[u32; 2]>,
        output_peaks: &Vec<[u32; 2]>,
        now: u64,
    )
        requires
            self.wf(),
            old(meters).wf(),
            old(meters).can_send(),
            input_peaks.len() == self.state().inputs.len(),
            output_peaks.len() == self.state().outputs.len(),
        ensures
            final(meters).wf(),
            final(meters).can_send(),
            final(meters).can_receive() == old(meters).can_receive(),
            final(meters).spec_capacity() == old(meters).spec_capacity(),
            final(meters).known_ready() == old(meters).known_ready(),
            old(meters).known_room() >= block_meters(
                self.state(),
                input_peaks@,
                output_peaks@,
                now,
            ).len() ==> final(meters).known_unread() == old(meters).known_unread() + block_meters(
                self.state(),
                input_peaks@,
                output_peaks@,
                now,
            ),
            old(meters).is_whole() ==> final(meters).pending() == offered(
                old(meters).pending(),
                block_meters(self.state(), input_peaks@, output_peaks@, now),
                old(meters).spec_capacity(),
            ),
    {
        let ghost batch = block_meters(self.state(), input_peaks@, output_peaks@, now);
        let ghost start = meters.pending();
        let ghost unread = meters.known_unread();
        let ghost capacity = meters.spec_capacity();
        let num_inputs: usize = self.mixer_state.inputs.len();
        let num_outputs: usize = self.mixer_state.outputs.len();
        proof {
            meters.lemma_unread_bounded();
            if meters.is_whole() {
                meters.lemma_bounded();
            }
            assert(unread + batch.take(0) =~= unread);
        }
        let mut i: usize = 0;
        while i < num_inputs
            invariant
                i <= num_inputs == self.state().inputs.len(),
                num_outputs == self.state().outputs.len(),
                input_peaks.len() == num_inputs,
                output_peaks.len() == num_outputs,
                self.state() == self.mixer_state@,
                batch == block_meters(self.state(), input_peaks@, output_peaks@, now),
                meters.wf(),
                meters.can_send(),
                meters.can_receive() == old(meters).can_receive(),
                meters.spec_capacity() == capacity == old(meters).spec_capacity(),
                start == old(meters).pending(),
                unread == old(meters).known_unread(),
                unread.len() <= capacity,
                meters.known_ready() == old(meters).known_ready(),
                i <= capacity - unread.len() ==> meters.known_unread() == unread + batch.take(
                    i as int,
                ),
                old(meters).is_whole() ==> start.len() <= capacity,
                old(meters).is_whole() ==> meters.pending() == offered(
                    start,
                    batch.take(i as int),
                    capacity,
                ),
            decreases num_inputs - i,
        {
            let m = make_meter(i, self.mixer_state.inputs[i].port_count, input_peaks[i], now);
            let ghost so_far = meters.known_unread();
            proof {
                if old(meters).is_whole() {
                    lemma_offered_step(start, batch, i as int, capacity);
                }
            }
            meters.publish(m);
            proof {
                if i < capacity - unread.len() {
                    assert(batch[i as int] == m);
                    assert(so_far.push(m) =~= unread + batch.take(i + 1));
                }
            }
            i += 1;
        }
        let mut j: usize = 0;
        while j < num_outputs
            invariant
                num_inputs == self.state().inputs.len(),
                j <= num_outputs == self.state().outputs.len(),
                num_inputs + num_outputs <= usize::MAX,
                input_peaks.len() == num_inputs,
                output_peaks.len() == num_outputs,
                self.state() == self.mixer_state@,
                batch == block_meters(self.state(), input_peaks@, output_peaks@, now),
                meters.wf(),
                meters.can_send(),
                meters.can_receive() == old(meters).can_receive(),
                meters.spec_capacity() == capacity == old(meters).spec_capacity(),
                start == old(meters).pending(),
                unread == old(meters).known_unread(),
                unread.len() <= capacity,
                meters.known_ready() == old(meters).known_ready(),
                num_inputs + j <= capacity - unread.len() ==> meters.known_unread() == unread
                    + batch.take(num_inputs + j),
                old(meters).is_whole() ==> start.len() <= capacity,
                old(meters).is_whole() ==> meters.pending() == offered(
                    start,
                    batch.take(num_inputs + j),
                    capacity,
                ),
            decreases num_outputs - j,
        {
            let m = make_meter(
                num_inputs + j,
                self.mixer_state.outputs[j].port_count,
                output_peaks[j],
                now,
            );
            let ghost so_far = meters.known_unread();
            proof {
                if old(meters).is_whole() {
                    lemma_offered_step(start, batch, num_inputs + j, capacity);
                }
            }
            meters.publish(m);
            proof {
                if num_inputs + j < capacity - unread.len() {
                    assert(batch[num_inputs + j] == m);
                    assert(so_far.push(m) =~= unread + batch.take(num_inputs + j + 1));
                }
            }
            j += 1;
        }
        proof {
            assert(batch.take(batch.len() as int) =~= batch);
        }
    }

    /// Starts a block: takes in the commands that have arrived, as
    /// `process_control_messages` does, and says whether the block is
    /// mixed or the callback retires. Where it is mixed, `plan` then
    /// lists the routes of the block; where the callback retires, `plan`
    /// is as it was.
    pub fn process(&mut self, control: &mut ControlChannel, plan: &mut Vec<Route>) -> (next:
        Control)
        requires
            old(self).wf(),
            old(control).wf(),
            old(control).can_receive(),
        ensures
            final(self).wf(),
            final(control).wf(),
            final(control).can_receive(),
            final(control).can_send() == old(control).can_send(),
            final(control).spec_capacity() == old(control).spec_capacity(),
            old(self).state().same_layout(final(self).state()),
            old(self).state().wf() ==> final(self).state().wf(),
            final(control).known_unread() == old(control).known_unread(),
            exists|taken: Seq<ControlMsg>| #[trigger]
                carried_out(
                    old(self).state(),
                    final(self).state(),
                    old(self).quit_requested(),
                    final(self).quit_requested(),
                    old(control).known_ready(),
                    taken,
                    final(control).known_ready(),
                    old(control).spec_capacity(),
                ),
            next == Control::Quit <==> final(self).quit_requested(),
            old(self).quit_requested() ==> final(self).quit_requested(),
            final(plan)@ == if next == Control::Quit {
                old(plan)@
            } else {
                block_routes(final(self).state())
            },
            old(control).is_whole() ==> {
                &&& final(control).pending() == Seq::<ControlMsg>::empty()
                &&& final(self).state() == old(self).state().apply_all(old(control).pending())
                &&& final(self).quit_requested() == (old(self).quit_requested() || asks_to_quit(
                    old(control).pending(),
                ))
            },
    {
        self.process_control_messages(control);
        proof {
            lemma_layout_keeps_port_base(
                old(self).state(),
                self.state(),
                self.state().inputs.len() as int,
            );
            lemma_layout_keeps_port_base(
                old(self).state(),
                self.state(),
                self.state().outputs.len() as int,
            );
        }
        if self.quit {
            Control::Quit
        } else {
            self.mixer_state.plan_routes(plan);
            Control::Continue
        }
    }
}

/// A sequence with one more command asks to stop when the sequence did
/// or the command does.
pub proof fn lemma_asks_push(msgs: Seq<ControlMsg>, msg: ControlMsg)
    ensures
        asks_to_quit(msgs.push(msg)) == (asks_to_quit(msgs) || msg == ControlMsg::Quit),
{
    let longer = msgs.push(msg);
    if asks_to_quit(msgs) {
        let i = choose|i: int| 0 <= i < msgs.len() && #[trigger] msgs[i] == ControlMsg::Quit;
        assert(longer[i] == ControlMsg::Quit);
    }
    if msg == ControlMsg::Quit {
        assert(longer[msgs.len() as int] == ControlMsg::Quit);
    }
}

/// What the real-time thread owns: the block handler, the receiving
/// half of the control channel and the sending half of the meter channel.
pub struct RealTimeSide {
    pub handler: ProcessHandler,
    pub control: ControlChannel,
    pub meters: MeterChannel,
}

impl RealTimeSide {
    /// The halves are the right ones and the channel positions fit the
    /// flat index space.
    pub open spec fn wf(&self) -> bool {
        &&& self.handler.wf()
        &&& self.control.wf()
        &&& self.control.can_receive()
        &&& self.meters.wf()
        &&& self.meters.can_send()
    }
}

/// The supervising side's handle on a running mixer: it sends commands,
/// receives measurements and asks for the stop.
pub struct AudioEngine {
    control: ControlChannel,
    meters: MeterChannel,
    stopping: bool,
}

impl AudioEngine {
    /// The handle holds the sending half of the control channel and the
    /// receiving half of the meter channel.
    pub closed spec fn wf(&self) -> bool {
        &&& self.control.wf()
        &&& self.control.can_send()
        &&& self.meters.wf()
        &&& self.meters.can_receive()
    }

    /// Whether the stop was asked for through this handle.
    pub closed spec fn stop_requested(&self) -> bool {
        self.stopping
    }

    /// Sets up a mixer for a validated configuration: both channels at
    /// their usual capacities, every configured channel at the
    /// default volume, and the two sides that share the channels.
    pub fn new(config: &Config, now: u64) -> (sides: (AudioEngine, RealTimeSide))
        requires
            config.valid(),
            config.inputs.len() + config.outputs.len() <= usize::MAX / 2,
        ensures
            sides.0.wf(),
            !sides.0.stop_requested(),
            sides.1.wf(),
            sides.1.handler.state().wf(),
            sides.1.handler.state().inputs == initial_channels(config.inputs@, false, now),
            sides.1.handler.state().outputs == initial_channels(config.outputs@, false, now),
            !sides.1.handler.quit_requested(),
            sides.1.control.spec_capacity() == CONTROL_RING_BUFFER_SIZE,
            sides.1.control.known_ready() == Seq::<ControlMsg>::empty(),
            sides.1.meters.spec_capacity() == METER_RING_BUFFER_SIZE,
            sides.1.meters.known_unread() == Seq::<MeterData>::empty(),
            sides.0.control_capacity() == CONTROL_RING_BUFFER_SIZE,
            sides.0.control_unread() == Seq::<ControlMsg>::empty(),
            sides.0.control_room() == CONTROL_RING_BUFFER_SIZE,
            sides.0.meters_ready() == Seq::<MeterData>::empty(),
            sides.0.meter_capacity() == METER_RING_BUFFER_SIZE,
    {
        let (control_tx, control_rx) = ControlChannel::new(CONTROL_RING_BUFFER_SIZE).split();
        let (meter_tx, meter_rx) = MeterChannel::new(METER_RING_BUFFER_SIZE).split();
        let handler = ProcessHandler::new(build_mixer_state(config, false, now));
        proof {
            let m = handler.state();
            lemma_port_base_bound(m.inputs, m.inputs.len() as int);
            lemma_port_base_bound(m.outputs, m.outputs.len() as int);
        }
        (
            AudioEngine { control: control_tx, meters: meter_rx, stopping: false },
            RealTimeSide { handler, control: control_rx, meters: meter_tx },
        )
    }

    /// Sends a command to the real-time side without waiting. Where the
    /// handle knows of room in the control channel, the command is queued:
    /// it joins what the handle counts as unread, and one slot of that
    /// room is used up. It fails only where the handle knows of no room
    /// and finds the channel full; nothing then changes, and the command
    /// may be sent again later. Whenever it succeeds, `msg` is the newest
    /// of the unread.
    pub fn send_control(&mut self, msg: ControlMsg) -> (r: Result<(), QueueFull>)
        requires
            old(self).wf(),
        ensures
            final(self).wf(),
            final(self).stop_requested() == old(self).stop_requested(),
            final(self).meters_ready() == old(self).meters_ready(),
            final(self).meter_capacity() == old(self).meter_capacity(),
            final(self).control_capacity() == old(self).control_capacity(),
            old(self).control_room() > 0 ==> {
                &&& r is Ok
                &&& final(self).control_unread() == old(self).control_unread().push(msg)
                &&& final(self).control_room() == old(self).control_room() - 1
            },
            r is Ok ==> {
                &&& final(self).control_unread().len() > 0
                &&& final(self).control_unread().last() == msg
            },
            r is Err ==> {
                &&& old(self).control_room() == 0
                &&& final(self).control_unread() == old(self).control_unread()
            },
    {
        proof {
            self.control.lemma_unread_bounded();
        }
        self.control.send(msg)
    }

    /// Sends the commands of `commands` in their order, without waiting,
    /// up to the first for which the control channel has no room, and
    /// says how many were sent. As many are sent as the handle knows of
    /// room for, and they join what it counts as unread, in their order;
    /// it stops short of the end only where it knows of no room and
    /// finds the channel full. The commands from position `sent` on are
    /// left for a later try.
    pub fn send_in_order(&mut self, commands: &Vec<ControlMsg>) -> (sent: usize)
        requires
            old(self).wf(),
        ensures
            final(self).wf(),
            final(self).stop_requested() == old(self).stop_requested(),
            final(self).meters_ready() == old(self).meters_ready(),
            final(self).meter_capacity() == old(self).meter_capacity(),
            final(self).control_capacity() == old(self).control_capacity(),
            sent <= commands.len(),
            sent < commands.len() ==> {
                &&& sent >= old(self).control_room()
                &&& final(self).control_room() == 0
            },
            sent <= old(self).control_room() ==> final(self).control_unread() == old(
                self,
            ).control_unread() + commands@.take(sent as int),
            sent > 0 ==> {
                &&& final(self).control_unread().len() > 0
                &&& final(self).control_unread().last() == commands@[sent - 1]
            },
    {
        self.control.send_in_order(commands)
    }

    /// Takes the oldest measurement that has arrived, if any, without
    /// waiting. Where the handle knows of measurements that are ready,
    /// the oldest of them comes out and the others stay ready. Nothing
    /// comes out only where it knows of none and finds the meter channel
    /// empty.
    pub fn try_recv_meter(&mut self) -> (r: Option<MeterData>)
        requires
            old(self).wf(),
        ensures
            final(self).wf(),
            final(self).stop_requested() == old(self).stop_requested(),
            final(self).control_unread() == old(self).control_unread(),
            final(self).control_capacity() == old(self).control_capacity(),
            final(self).meter_capacity() == old(self).meter_capacity(),
            old(self).meters_ready().len() > 0 ==> {
                &&& r == Some(old(self).meters_ready()[0])
                &&& final(self).meters_ready() == old(self).meters_ready().drop_first()
            },
            r is None ==> old(self).meters_ready().len() == 0 && final(self).meters_ready().len()
                == 0,
    {
        self.meters.try_receive()
    }

    /// Takes in the measurements that have arrived, in their order, at
    /// most as many as the meter channel can hold: each goes to the
    /// channel of `console` that its position names. Those that the
    /// handle knew to be ready are taken first; what else is taken
    /// arrived meanwhile. It stops short of the channel's capacity only
    /// when it finds the channel empty.
    pub fn receive_meters(&mut self, console: &mut Console, now: u64, hold: u64)
        requires
            old(self).wf(),
            old(console).wf(),
        ensures
            final(self).wf(),
            final(self).stop_requested() == old(self).stop_requested(),
            final(self).control_unread() == old(self).control_unread(),
            final(self).control_capacity() == old(self).control_capacity(),
            final(self).meter_capacity() == old(self).meter_capacity(),
            final(console).wf(),
            old(console).same_cursor(final(console)),
            exists|taken: Seq<MeterData>| #[trigger]
                took_in(
                    old(console).state(),
                    final(console).state(),
                    old(self).meters_ready(),
                    taken,
                    final(self).meters_ready(),
                    old(self).meter_capacity(),
                    now,
                    hold,
                ),
    {
        console.process_meter_updates(&mut self.meters, now, hold);
        proof {
            let taken = choose|taken: Seq<MeterData>| #[trigger]
                took_in(
                    old(console).state(),
                    console.state(),
                    old(self).meters.known_ready(),
                    taken,
                    self.meters.known_ready(),
                    old(self).meters.spec_capacity(),
                    now,
                    hold,
                );
            assert(took_in(
                old(console).state(),
                console.state(),
                old(self).meters_ready(),
                taken,
                self.meters_ready(),
                old(self).meter_capacity(),
                now,
                hold,
            ));
        }
    }

    /// Sends the commands that bring the real-time side to the volumes
    /// that `config` gives: one for each channel that has a volume, with
    /// the channel's position and the volume brought into range, the
    /// inputs first. They are sent in this order up to the first for
    /// which the control channel has no room, and the result says how
    /// many were sent. As many are sent as the handle knows of room for,
    /// and they join what it counts as unread; it stops short of the end
    /// only where it knows of no room and finds the channel full.
    pub fn send_initial_volumes(&mut self, config: &Config) -> (sent: usize)
        requires
            old(self).wf(),
        ensures
            final(self).wf(),
            final(self).stop_requested() == old(self).stop_requested(),
            final(self).meters_ready() == old(self).meters_ready(),
            final(self).meter_capacity() == old(self).meter_capacity(),
            final(self).control_capacity() == old(self).control_capacity(),
            sent <= initial_volume_commands(config).len(),
            sent < initial_volume_commands(config).len() ==> {
                &&& sent >= old(self).control_room()
                &&& final(self).control_room() == 0
            },
            sent <= old(self).control_room() ==> final(self).control_unread() == old(
                self,
            ).control_unread() + initial_volume_commands(config).take(sent as int),
            sent > 0 ==> {
                &&& final(self).control_unread().len() > 0
                &&& final(self).control_unread().last() == initial_volume_commands(config)[sent
                    - 1]
            },
    {
        let commands = initial_commands(config);
        self.send_in_order(&commands)
    }

    /// Asks the real-time side to stop: the request is remembered here,
    /// and the command to stop is sent if the channel has room. Where the
    /// handle knows of room, the command joins what it counts as unread;
    /// where it knows of none, either the channel is found full and
    /// nothing is sent, or the command is the newest of the unread.
    pub fn quit(&mut self)
        requires
            old(self).wf(),
        ensures
            final(self).wf(),
            final(self).stop_requested(),
            final(self).meters_ready() == old(self).meters_ready(),
            final(self).meter_capacity() == old(self).meter_capacity(),
            final(self).control_capacity() == old(self).control_capacity(),
            old(self).control_room() > 0 ==> {
                &&& final(self).control_unread() == old(self).control_unread().push(
                    ControlMsg::Quit,
                )
                &&& final(self).control_room() == old(self).control_room() - 1
            },
            old(self).control_room() == 0 ==> {
                ||| final(self).control_unread() == old(self).control_unread()
                ||| final(self).control_unread().len() > 0 && final(self).control_unread().last()
                    == ControlMsg::Quit
            },
    {
        self.stopping = true;
        let _ = self.send_control(ControlMsg::Quit);
    }

    /// Whether the stop was asked for through this handle.
    pub fn is_stop_requested(&self) -> (r: bool)
        ensures
            r == self.stop_requested(),
    {
        self.stopping
    }

    /// The commands that this handle has sent and does not know to be
    /// received yet, oldest first.
    pub closed spec fn control_unread(&self) -> Seq<ControlMsg> {
        self.control.known_unread()
    }

    /// The capacity of the control channel.
    pub closed spec fn control_capacity(&self) -> nat {
        self.control.spec_capacity()
    }

    /// The room in the control channel that this handle knows of: at
    /// least this many commands will be queued, whatever the real-time
    /// side does.
    pub open spec fn control_room(&self) -> nat {
        (self.control_capacity() - self.control_unread().len()) as nat
    }

    /// The handle never counts more unread commands than the control
    /// channel holds.
    pub proof fn lemma_unread_bounded(&self)
        requires
            self.wf(),
        ensures
            self.control_unread().len() <= self.control_capacity(),
    {
        self.control.lemma_unread_bounded();
    }

    /// The measurements that this handle knows to be ready, oldest first:
    /// they are received next, in this order, whatever the real-time side
    /// does.
    pub closed spec fn meters_ready(&self) -> Seq<MeterData> {
        self.meters.known_ready()
    }

    /// The capacity of the meter channel.
    pub closed spec fn meter_capacity(&self) -> nat {
        self.meters.spec_capacity()
    }
}

} // verus!
