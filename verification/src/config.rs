//! The mixer's configuration: which channels it has, how their ports are
//! named, and at which volume each starts. Reading and writing the file
//! that holds it is the embedding program's part; the rules that a
//! configuration must meet are stated and checked here.

use crate::ipc::{volume_in_range, VOLUME_MAX_DB, VOLUME_MIN_DB};
use vstd::prelude::*;

verus! {

/// One channel of one direction as configured.
#[derive(Debug)]
pub struct ChannelConfig {
    /// Display name.
    pub name: String,
    /// Names of the ports to create: one for mono, two for stereo.
    pub ports: Vec<String>,
    /// Starting volume in thousandths of a decibel, where one is given.
    pub volume_db: Option<i32>,
}

/// The whole configuration.
#[derive(Debug)]
pub struct Config {
    /// Name under which the mixer registers with the audio server.
    pub client_name: String,
    /// The input channels in their order.
    pub inputs: Vec<ChannelConfig>,
    /// The output channels in their order.
    pub outputs: Vec<ChannelConfig>,
    /// Where the configuration was read from, if anywhere.
    pub config_path: Option<String>,
}

/// What can be wrong with one configured channel.
#[derive(Clone, Copy, Debug, PartialEq, Eq, Structural)]
pub enum ChannelFault {
    /// The display name is empty.
    EmptyName,
    /// No port is named.
    NoPorts,
    /// More than two ports are named.
    TooManyPorts,
    /// The starting volume is outside the permitted range.
    VolumeOutOfRange,
}

/// Why a configuration is rejected.
#[derive(Clone, Copy, Debug, PartialEq, Eq, Structural)]
pub enum ConfigError {
    /// The client name is empty.
    EmptyClientName,
    /// There is no input channel.
    NoInputs,
    /// There is no output channel.
    NoOutputs,
    /// The input channel at `index` has a fault.
    Input { index: usize, fault: ChannelFault },
    /// The output channel at `index` has a fault.
    Output { index: usize, fault: ChannelFault },
}

/// The first channel of `channels` at or after `from` that has a fault,
/// with its fault.
pub open spec fn first_fault(channels: Seq<ChannelConfig>, from: int) -> Option<
    (int, ChannelFault),
>
    decreases channels.len() - from,
{
    if from < 0 || from >= channels.len() {
        None
    } else if channels[from].fault() is Some {
        Some((from, channels[from].fault()->0))
    } else {
        first_fault(channels, from + 1)
    }
}

/// The sum of the port counts of `channels`.
pub open spec fn total_ports(channels: Seq<ChannelConfig>) -> int
    decreases channels.len(),
{
    if channels.len() == 0 {
        0
    } else {
        total_ports(channels.drop_last()) + channels.last().spec_port_count()
    }
}

impl ChannelConfig {
    /// Whether two or more ports are named.
    pub open spec fn spec_is_stereo(&self) -> bool {
        self.ports@.len() >= 2
    }

    /// The number of ports the channel gets: as many as are named, but
    /// no more than two.
    pub open spec fn spec_port_count(&self) -> int {
        if self.ports@.len() < 2 {
            self.ports@.len() as int
        } else {
            2
        }
    }

    /// What is wrong with this channel: the first of the faults in the
    /// order of `ChannelFault` that it has, if it has any.
    pub open spec fn fault(&self) -> Option<ChannelFault> {
        if self.name@.len() == 0 {
            Some(ChannelFault::EmptyName)
        } else if self.ports@.len() == 0 {
            Some(ChannelFault::NoPorts)
        } else if self.ports@.len() > 2 {
            Some(ChannelFault::TooManyPorts)
        } else if self.volume_db is Some && !volume_in_range(self.volume_db->0 as int) {
            Some(ChannelFault::VolumeOutOfRange)
        } else {
            None
        }
    }

    /// Whether this is a stereo channel.
    pub fn is_stereo(&self) -> (r: bool)
        ensures
            r == self.spec_is_stereo(),
    {
        self.ports.len() >= 2
    }

    /// The number of ports: one for mono, two for stereo.
    pub fn port_count(&self) -> (n: usize)
        ensures
            n == self.spec_port_count(),
            n <= 2,
    {
        if self.ports.len() < 2 {
            self.ports.len()
        } else {
            2
        }
    }

    /// Looks for a fault in this channel.
    pub fn check(&self) -> (r: Option<ChannelFault>)
        ensures
            r == self.fault(),
    {
        if self.name.as_str().is_empty() {
            return Some(ChannelFault::EmptyName);
        }
        if self.ports.len() == 0 {
            return Some(ChannelFault::NoPorts);
        }
        if self.ports.len() > 2 {
            return Some(ChannelFault::TooManyPorts);
        }
        match self.volume_db {
            Some(v) => {
                if v < VOLUME_MIN_DB || v > VOLUME_MAX_DB {
                    return Some(ChannelFault::VolumeOutOfRange);
                }
            },
            None => {},
        }
        None
    }
}

/// Looks for the first channel with a fault.
pub fn find_fault(channels: &Vec<ChannelConfig>) -> (r: Option<(usize, ChannelFault)>)
    ensures
        match r {
            Some((index, fault)) => {
                &&& first_fault(channels@, 0) == Some((index as int, fault))
                &&& index < channels.len()
                &&& channels[index as int].fault() == Some(fault)
                &&& forall|j: int| 0 <= j < index ==> (#[trigger] channels[j]).fault() is None
            },
            None => {
                &&& first_fault(channels@, 0) is None
                &&& forall|j: int|
                    0 <= j < channels.len() ==> (#[trigger] channels[j]).fault() is None
            },
        },
{
    let mut i: usize = 0;
    while i < channels.len()
        invariant
            i <= channels.len(),
            first_fault(channels@, 0) == first_fault(channels@, i as int),
            forall|j: int| 0 <= j < i ==> (#[trigger] channels[j]).fault() is None,
        decreases channels.len() - i,
    {
        match channels[i].check() {
            Some(fault) => {
                return Some((i, fault));
            },
            None => {},
        }
        i += 1;
    }
    None
}

impl Config {
    /// The reason for which this configuration is rejected, if it is:
    /// an empty client name, then a direction without channels, then the
    /// first input with a fault, then the first output with one.
    pub open spec fn first_error(&self) -> Option<ConfigError> {
        if self.client_name@.len() == 0 {
            Some(ConfigError::EmptyClientName)
        } else if self.inputs@.len() == 0 {
            Some(ConfigError::NoInputs)
        } else if self.outputs@.len() == 0 {
            Some(ConfigError::NoOutputs)
        } else {
            match first_fault(self.inputs@, 0) {
                Some((index, fault)) => Some(ConfigError::Input { index: index as usize, fault }),
                None => match first_fault(self.outputs@, 0) {
                    Some((index, fault)) => Some(
                        ConfigError::Output { index: index as usize, fault },
                    ),
                    None => None,
                },
            }
        }
    }

    /// Whether the configuration is accepted: the client is named, each
    /// direction has a channel, and every channel has a name, one or two
    /// ports, and a starting volume in range if it has one.
    pub open spec fn valid(&self) -> bool {
        &&& self.client_name@.len() > 0
        &&& self.inputs@.len() > 0
        &&& self.outputs@.len() > 0
        &&& forall|i: int| 0 <= i < self.inputs@.len() ==> (#[trigger] self.inputs@[i]).fault() is None
        &&& forall|i: int|
            0 <= i < self.outputs@.len() ==> (#[trigger] self.outputs@[i]).fault() is None
    }

    /// Checks the configuration. It is accepted exactly when it is
    /// `valid`, and else rejected for the reason `first_error` gives.
    pub fn validate(&self) -> (r: Result<(), ConfigError>)
        ensures
            r is Ok <==> self.valid(),
            r is Ok <==> self.first_error() is None,
            r is Err ==> self.first_error() == Some(r->Err_0),
    {
        if self.client_name.as_str().is_empty() {
            return Err(ConfigError::EmptyClientName);
        }
        if self.inputs.len() == 0 {
            return Err(ConfigError::NoInputs);
        }
        if self.outputs.len() == 0 {
            return Err(ConfigError::NoOutputs);
        }
        match find_fault(&self.inputs) {
            Some((index, fault)) => {
                return Err(ConfigError::Input { index, fault });
            },
            None => {},
        }
        match find_fault(&self.outputs) {
            Some((index, fault)) => {
                return Err(ConfigError::Output { index, fault });
            },
            None => {},
        }
        Ok(())
    }

    /// Total number of input ports.
    pub fn total_input_ports(&self) -> (n: usize)
        requires
            self.inputs.len() <= usize::MAX / 2,
        ensures
            n == total_ports(self.inputs@),
    {
        count_ports(&self.inputs)
    }

    /// Total number of output ports.
    pub fn total_output_ports(&self) -> (n: usize)
        requires
            self.outputs.len() <= usize::MAX / 2,
        ensures
            n == total_ports(self.outputs@),
    {
        count_ports(&self.outputs)
    }

    /// Records volumes as the starting volumes: the volume at each
    /// position goes to the channel at that position, as far as both
    /// reach. Nothing else changes.
    pub fn update_volumes(&mut self, input_volumes: &[i32], output_volumes: &[i32])
        ensures
            final(self).client_name == old(self).client_name,
            final(self).config_path == old(self).config_path,
            volumes_recorded(old(self).inputs@, final(self).inputs@, input_volumes@),
            volumes_recorded(old(self).outputs@, final(self).outputs@, output_volumes@),
    {
        record_volumes(&mut self.inputs, input_volumes);
        record_volumes(&mut self.outputs, output_volumes);
    }
}

/// Whether `after` is `before` with the volumes of `volumes` recorded:
/// as many channels with the same names and ports, the channel at each
/// position that `volumes` reaches starting at the volume given there,
/// every other unchanged.
pub open spec fn volumes_recorded(
    before: Seq<ChannelConfig>,
    after: Seq<ChannelConfig>,
    volumes: Seq<i32>,
) -> bool {
    &&& after.len() == before.len()
    &&& forall|i: int|
        0 <= i < before.len() ==> #[trigger] after[i] == (ChannelConfig {
            volume_db: if i < volumes.len() {
                Some(volumes[i])
            } else {
                before[i].volume_db
            },
            ..before[i]
        })
}

/// Records `volumes` as the starting volumes of `channels`.
pub fn record_volumes(channels: &mut Vec<ChannelConfig>, volumes: &[i32])
    ensures
        volumes_recorded(old(channels)@, final(channels)@, volumes@),
{
    let mut i: usize = 0;
    while i < volumes.len() && i < channels.len()
        invariant
            channels.len() == old(channels).len(),
            forall|j: int|
                0 <= j < channels.len() ==> #[trigger] channels@[j] == (ChannelConfig {
                    volume_db: if j < i {
                        Some(volumes@[j])
                    } else {
                        old(channels)@[j].volume_db
                    },
                    ..old(channels)@[j]
                }),
            i <= volumes.len(),
            i <= channels.len(),
        decreases channels.len() - i,
    {
        channels[i].volume_db = Some(volumes[i]);
        i += 1;
    }
}

/// Adds up the port counts of `channels`.
pub fn count_ports(channels: &Vec<ChannelConfig>) -> (n: usize)
    requires
        channels.len() <= usize::MAX / 2,
    ensures
        n == total_ports(channels@),
        n <= 2 * channels.len(),
{
    let mut n: usize = 0;
    let mut i: usize = 0;
    while i < channels.len()
        invariant
            i <= channels.len() <= usize::MAX / 2,
            n == total_ports(channels@.take(i as int)),
            n <= 2 * i,
        decreases channels.len() - i,
    {
        proof {
            assert(channels@.take(i + 1).drop_last() =~= channels@.take(i as int));
        }
        n += channels[i].port_count();
        i += 1;
    }
    proof {
        assert(channels@.take(channels.len() as int) =~= channels@);
    }
    n
}

} // verus!
