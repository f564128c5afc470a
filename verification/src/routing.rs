//! The mix of one block as a list of routes. A route names an input
//! port, an output port and the two levels by which the input's samples
//! are scaled before they are added to the output's. The caller zeroes
//! every output port and then carries the routes out in their order.
//!
//! Ports are numbered per direction, channel after channel in configured
//! order, the ports of a channel in their own order.

use crate::ipc::{lemma_mono_fans_out, ChannelState, MixerModel, MixerState};
use vstd::prelude::*;

verus! {

/// One summand of one output port.
#[derive(Clone, Copy, Debug, PartialEq, Eq, Structural)]
pub struct Route {
    /// Number of the input port whose samples are added.
    pub input_port: usize,
    /// Number of the output port that receives them.
    pub output_port: usize,
    /// Level of the input channel, in thousandths of a decibel.
    pub input_level: i32,
    /// Level of the output channel, in thousandths of a decibel.
    pub output_level: i32,
}

/// The number of the first port of channel `n`: the ports of the
/// channels before it, added up.
pub open spec fn port_base(channels: Seq<ChannelState>, n: int) -> int
    decreases n,
{
    if n <= 0 {
        0
    } else {
        port_base(channels, n - 1) + channels[n - 1].port_count
    }
}

/// Whether the ports of both directions can be numbered.
pub open spec fn ports_fit(m: MixerModel) -> bool {
    &&& port_base(m.inputs, m.inputs.len() as int) <= usize::MAX
    &&& port_base(m.outputs, m.outputs.len() as int) <= usize::MAX
}

/// The route from port `p` of input `i` to port `q` of output `o`, if
/// the one adds to the other: no route, or one.
pub open spec fn route(m: MixerModel, i: int, p: int, o: int, q: int) -> Seq<Route> {
    match m.contribution(i, p, o, q) {
        Some((a, b)) => seq![
            Route {
                input_port: (port_base(m.inputs, i) + p) as usize,
                output_port: (port_base(m.outputs, o) + q) as usize,
                input_level: a,
                output_level: b,
            },
        ],
        None => Seq::empty(),
    }
}

/// The routes from port `p` of input `i` to the first `k` ports of
/// output `o`, in port order.
pub open spec fn routes_to_output(m: MixerModel, i: int, p: int, o: int, k: int) -> Seq<Route>
    decreases k,
{
    if k <= 0 {
        Seq::empty()
    } else {
        routes_to_output(m, i, p, o, k - 1) + route(m, i, p, o, k - 1)
    }
}

/// The routes from port `p` of input `i` to the first `n` outputs, in
/// channel order.
pub open spec fn routes_to_outputs(m: MixerModel, i: int, p: int, n: int) -> Seq<Route>
    decreases n,
{
    if n <= 0 {
        Seq::empty()
    } else {
        routes_to_outputs(m, i, p, n - 1) + routes_to_output(
            m,
            i,
            p,
            n - 1,
            m.outputs[n - 1].port_count as int,
        )
    }
}

/// The routes from the first `k` ports of input `i`, in port order.
pub open spec fn routes_of_input(m: MixerModel, i: int, k: int) -> Seq<Route>
    decreases k,
{
    if k <= 0 {
        Seq::empty()
    } else {
        routes_of_input(m, i, k - 1) + routes_to_outputs(m, i, k - 1, m.outputs.len() as int)
    }
}

/// The routes from the first `n` inputs, in channel order.
pub open spec fn routes_of_inputs(m: MixerModel, n: int) -> Seq<Route>
    decreases n,
{
    if n <= 0 {
        Seq::empty()
    } else {
        routes_of_inputs(m, n - 1) + routes_of_input(m, n - 1, m.inputs[n - 1].port_count as int)
    }
}

/// All routes of a block: input after input, port after port, and for
/// each the outputs in their order and their ports in theirs.
pub open spec fn block_routes(m: MixerModel) -> Seq<Route> {
    routes_of_inputs(m, m.inputs.len() as int)
}

/// Port numbers grow with the channel position.
pub proof fn lemma_port_base_grows(channels: Seq<ChannelState>, a: int, b: int)
    requires
        0 <= a <= b,
    ensures
        0 <= port_base(channels, a) <= port_base(channels, b),
    decreases b,
{
    if a < b {
        lemma_port_base_grows(channels, a, b - 1);
    } else if a > 0 {
        lemma_port_base_grows(channels, a - 1, a - 1);
        lemma_port_base_grows(channels, 0, a - 1);
    }
}

/// Whether port `p` of input `i` and port `q` of output `o` exist.
pub open spec fn ports_exist(m: MixerModel, i: int, p: int, o: int, q: int) -> bool {
    &&& 0 <= i < m.inputs.len()
    &&& 0 <= p < m.inputs[i].port_count
    &&& 0 <= o < m.outputs.len()
    &&& 0 <= q < m.outputs[o].port_count
}

/// Commands never renumber the ports: mixers with the same strips
/// number their ports alike.
pub proof fn lemma_layout_keeps_port_base(a: MixerModel, b: MixerModel, n: int)
    requires
        a.same_layout(b),
    ensures
        n <= a.inputs.len() ==> port_base(a.inputs, n) == port_base(b.inputs, n),
        n <= a.outputs.len() ==> port_base(a.outputs, n) == port_base(b.outputs, n),
    decreases n,
{
    if n > 0 {
        lemma_layout_keeps_port_base(a, b, n - 1);
    }
}

/// Channels of at most two ports each have at most twice as many ports
/// as there are channels.
pub proof fn lemma_port_base_bound(channels: Seq<ChannelState>, n: int)
    requires
        0 <= n <= channels.len(),
        forall|i: int| 0 <= i < channels.len() ==> (#[trigger] channels[i]).port_count <= 2,
    ensures
        port_base(channels, n) <= 2 * n,
    decreases n,
{
    if n > 0 {
        lemma_port_base_bound(channels, n - 1);
    }
}

/// Whether `r` is the route between some pair of existing ports of which
/// the one adds to the other.
pub open spec fn is_route(m: MixerModel, r: Route) -> bool {
    exists|i: int, p: int, o: int, q: int|
        ports_exist(m, i, p, o, q) && #[trigger] route(m, i, p, o, q) == seq![r]
}

/// What is in a concatenation is in one of its parts, and the reverse.
pub proof fn lemma_contains_concat(a: Seq<Route>, b: Seq<Route>, r: Route)
    ensures
        (a + b).contains(r) <==> a.contains(r) || b.contains(r),
{
    if a.contains(r) {
        let k = choose|k: int| 0 <= k < a.len() && a[k] == r;
        assert((a + b)[k] == r);
    }
    if b.contains(r) {
        let k = choose|k: int| 0 <= k < b.len() && b[k] == r;
        assert((a + b)[a.len() + k] == r);
    }
}

/// The routes to the first `k` ports of an output are those of the
/// pairs that reach one of these ports.
pub proof fn lemma_routes_to_output(m: MixerModel, i: int, p: int, o: int, k: int, r: Route)
    ensures
        routes_to_output(m, i, p, o, k).contains(r) <==> exists|q: int|
            0 <= q < k && #[trigger] route(m, i, p, o, q) == seq![r],
    decreases k,
{
    if k > 0 {
        let last = route(m, i, p, o, k - 1);
        lemma_routes_to_output(m, i, p, o, k - 1, r);
        lemma_contains_concat(routes_to_output(m, i, p, o, k - 1), last, r);
        if last == seq![r] {
            assert(last[0] == r);
        }
    }
}

/// The routes to the first `n` outputs are those of the pairs that reach
/// a port of one of these outputs.
pub proof fn lemma_routes_to_outputs(m: MixerModel, i: int, p: int, n: int, r: Route)
    ensures
        routes_to_outputs(m, i, p, n).contains(r) <==> exists|o: int, q: int|
            0 <= o < n && 0 <= q < m.outputs[o].port_count && #[trigger] route(m, i, p, o, q)
                == seq![r],
    decreases n,
{
    if n > 0 {
        let ports = m.outputs[n - 1].port_count as int;
        let last = routes_to_output(m, i, p, n - 1, ports);
        lemma_routes_to_outputs(m, i, p, n - 1, r);
        lemma_routes_to_output(m, i, p, n - 1, ports, r);
        lemma_contains_concat(routes_to_outputs(m, i, p, n - 1), last, r);
    }
}

/// The routes from the first `k` ports of an input are those of the
/// pairs that start at one of these ports.
pub proof fn lemma_routes_of_input(m: MixerModel, i: int, k: int, r: Route)
    ensures
        routes_of_input(m, i, k).contains(r) <==> exists|p: int, o: int, q: int|
            0 <= p < k && 0 <= o < m.outputs.len() && 0 <= q < m.outputs[o].port_count
                && #[trigger] route(m, i, p, o, q) == seq![r],
    decreases k,
{
    if k > 0 {
        let n = m.outputs.len() as int;
        let last = routes_to_outputs(m, i, k - 1, n);
        lemma_routes_of_input(m, i, k - 1, r);
        lemma_routes_to_outputs(m, i, k - 1, n, r);
        lemma_contains_concat(routes_of_input(m, i, k - 1), last, r);
    }
}

/// The routes from the first `n` inputs are those of the pairs of
/// existing ports that start at one of these inputs.
pub proof fn lemma_routes_of_inputs(m: MixerModel, n: int, r: Route)
    requires
        n <= m.inputs.len(),
    ensures
        routes_of_inputs(m, n).contains(r) <==> exists|i: int, p: int, o: int, q: int|
            i < n && ports_exist(m, i, p, o, q) && #[trigger] route(m, i, p, o, q) == seq![r],
    decreases n,
{
    if n > 0 {
        let ports = m.inputs[n - 1].port_count as int;
        let last = routes_of_input(m, n - 1, ports);
        lemma_routes_of_inputs(m, n - 1, r);
        lemma_routes_of_input(m, n - 1, ports, r);
        lemma_contains_concat(routes_of_inputs(m, n - 1), last, r);
    }
}

/// The routes of a block are exactly the routes between existing ports
/// of which the one adds to the other: none is made up and none is left
/// out.
pub proof fn lemma_block_routes(m: MixerModel, r: Route)
    ensures
        block_routes(m).contains(r) <==> is_route(m, r),
{
    lemma_routes_of_inputs(m, m.inputs.len() as int, r);
}

/// An input that is muted, or not soloed while another is, has no route:
/// from none of its ports to any port of any output.
pub proof fn lemma_silent_input_has_no_route(m: MixerModel, i: int, p: int, o: int, q: int)
    requires
        0 <= i < m.inputs.len(),
        m.inputs[i].muted || (m.any_input_soloed() && !m.inputs[i].soloed),
    ensures
        route(m, i, p, o, q) == Seq::<Route>::empty(),
{
}

/// Mono fan-out: in a mixer of one mono input and one stereo output,
/// both unmuted at zero decibels, a block has two routes, from the one
/// input port to each output port, both at unity gain. Each zeroed
/// output port thus receives the input's samples once and unscaled, and
/// peaks where the input peaks.
pub proof fn lemma_mono_fan_out_routes(m: MixerModel)
    requires
        m.inputs.len() == 1,
        m.outputs.len() == 1,
        m.inputs[0].port_count == 1,
        m.outputs[0].port_count == 2,
        !m.inputs[0].muted,
        !m.outputs[0].muted,
        m.inputs[0].volume_db == 0,
        m.outputs[0].volume_db == 0,
    ensures
        block_routes(m) == seq![
            Route { input_port: 0, output_port: 0, input_level: 0, output_level: 0 },
            Route { input_port: 0, output_port: 1, input_level: 0, output_level: 0 },
        ],
{
    lemma_mono_fans_out(m, 0);
    lemma_mono_fans_out(m, 1);
    reveal_with_fuel(routes_of_inputs, 3);
    reveal_with_fuel(routes_of_input, 3);
    reveal_with_fuel(routes_to_outputs, 3);
    reveal_with_fuel(routes_to_output, 4);
}

/// The number of the first port of each channel, in channel order.
pub fn port_bases(channels: &Vec<ChannelState>) -> (bases: Vec<usize>)
    requires
        port_base(channels@, channels.len() as int) <= usize::MAX,
    ensures
        bases.len() == channels.len(),
        forall|i: int| 0 <= i < channels.len() ==> #[trigger] bases[i] == port_base(channels@, i),
{
    let mut bases: Vec<usize> = Vec::new();
    let mut base: usize = 0;
    let mut i: usize = 0;
    while i < channels.len()
        invariant
            i <= channels.len(),
            port_base(channels@, channels.len() as int) <= usize::MAX,
            base == port_base(channels@, i as int),
            bases.len() == i,
            forall|k: int| 0 <= k < i ==> #[trigger] bases[k] == port_base(channels@, k),
        decreases channels.len() - i,
    {
        proof {
            lemma_port_base_grows(channels@, i + 1, channels.len() as int);
        }
        bases.push(base);
        base += channels[i].port_count;
        i += 1;
    }
    bases
}

impl MixerState {
    /// Writes the routes of a block into `plan`, replacing what it held.
    pub fn plan_routes(&self, plan: &mut Vec<Route>)
        requires
            ports_fit(self@),
        ensures
            final(plan)@ == block_routes(self@),
    {
        plan.clear();
        let ghost m = self@;
        let num_inputs: usize = self.inputs.len();
        let num_outputs: usize = self.outputs.len();
        let mut in_base: usize = 0;
        let mut i: usize = 0;
        while i < num_inputs
            invariant
                m == self@,
                ports_fit(m),
                num_inputs == m.inputs.len(),
                num_outputs == m.outputs.len(),
                i <= num_inputs,
                in_base == port_base(m.inputs, i as int),
                plan@ == routes_of_inputs(m, i as int),
            decreases num_inputs - i,
        {
            let in_ports: usize = self.inputs[i].port_count;
            proof {
                lemma_port_base_grows(m.inputs, i + 1, num_inputs as int);
            }
            let ghost before_input = plan@;
            let mut p: usize = 0;
            while p < in_ports
                invariant
                    m == self@,
                    ports_fit(m),
                    num_inputs == m.inputs.len(),
                    num_outputs == m.outputs.len(),
                    i < num_inputs,
                    in_ports == m.inputs[i as int].port_count,
                    in_base == port_base(m.inputs, i as int),
                    in_base + in_ports <= usize::MAX,
                    p <= in_ports,
                    plan@ == before_input + routes_of_input(m, i as int, p as int),
                decreases in_ports - p,
            {
                let ghost before_port = plan@;
                let mut out_base: usize = 0;
                let mut o: usize = 0;
                while o < num_outputs
                    invariant
                        m == self@,
                        ports_fit(m),
                        num_inputs == m.inputs.len(),
                        num_outputs == m.outputs.len(),
                        i < num_inputs,
                        p < in_ports,
                        in_base == port_base(m.inputs, i as int),
                        in_base + in_ports <= usize::MAX,
                        o <= num_outputs,
                        out_base == port_base(m.outputs, o as int),
                        plan@ == before_port + routes_to_outputs(m, i as int, p as int, o as int),
                    decreases num_outputs - o,
                {
                    let out_ports: usize = self.outputs[o].port_count;
                    proof {
                        lemma_port_base_grows(m.outputs, o + 1, num_outputs as int);
                    }
                    let ghost before_output = plan@;
                    let mut q: usize = 0;
                    while q < out_ports
                        invariant
                            m == self@,
                            num_inputs == m.inputs.len(),
                            num_outputs == m.outputs.len(),
                            i < num_inputs,
                            o < num_outputs,
                            p < in_ports,
                            in_base == port_base(m.inputs, i as int),
                            in_base + in_ports <= usize::MAX,
                            out_ports == m.outputs[o as int].port_count,
                            out_base == port_base(m.outputs, o as int),
                            out_base + out_ports <= usize::MAX,
                            q <= out_ports,
                            plan@ == before_output + routes_to_output(
                                m,
                                i as int,
                                p as int,
                                o as int,
                                q as int,
                            ),
                        decreases out_ports - q,
                    {
                        match self.contribution(i, p, o, q) {
                            Some((a, b)) => {
                                plan.push(
                                    Route {
                                        input_port: in_base + p,
                                        output_port: out_base + q,
                                        input_level: a,
                                        output_level: b,
                                    },
                                );
                            },
                            None => {},
                        }
                        q += 1;
                    }
                    out_base += out_ports;
                    o += 1;
                }
                p += 1;
            }
            in_base += in_ports;
            i += 1;
        }
    }
}

} // verus!
