//! Interface topology: which interfaces a configuration declares, and the
//! input and output endpoint addresses of each.

use crate::descriptor::{
    addresses_toward, lemma_endpoints_partitioned, rank_toward, split_endpoints, ConfigDescriptor,
    Direction, EndpointDescriptor, InterfaceDescriptor, InterfaceDescriptorView,
};
use crate::error::{Error, TransportError};
use std::collections::HashMap;
use vstd::prelude::*;

verus! {

broadcast use vstd::std_specs::hash::group_hash_axioms;

/// One interface with its endpoint addresses split by direction.
#[derive(Clone, Debug, PartialEq, Eq, Hash)]
pub struct InterfaceInfo {
    /// The interface number.
    pub number: u8,
    /// Addresses of the endpoints that carry data to the host, in declared
    /// order.
    pub endpoints_in: Vec<u8>,
    /// Addresses of the endpoints that carry data to the device, in declared
    /// order.
    pub endpoints_out: Vec<u8>,
}

/// Mathematical model of an [`InterfaceInfo`].
pub struct InterfaceInfoView {
    pub number: u8,
    pub endpoints_in: Seq<u8>,
    pub endpoints_out: Seq<u8>,
}

impl View for InterfaceInfo {
    type V = InterfaceInfoView;

    open spec fn view(&self) -> InterfaceInfoView {
        InterfaceInfoView {
            number: self.number,
            endpoints_in: self.endpoints_in@,
            endpoints_out: self.endpoints_out@,
        }
    }
}

/// The endpoints that describe an interface: those of its last alternate
/// setting, and none where it has no setting at all.
pub open spec fn governing_endpoints(interface: InterfaceDescriptorView) -> Seq<EndpointDescriptor> {
    if interface.settings.len() == 0 {
        Seq::empty()
    } else {
        interface.settings.last()
    }
}

/// What the topology records for one declared interface.
pub open spec fn describe_interface(interface: InterfaceDescriptorView) -> InterfaceInfoView {
    InterfaceInfoView {
        number: interface.number,
        endpoints_in: addresses_toward(governing_endpoints(interface), Direction::In),
        endpoints_out: addresses_toward(governing_endpoints(interface), Direction::Out),
    }
}

/// Whether the configuration declares an interface with this number.
pub open spec fn declares(config: Seq<InterfaceDescriptorView>, number: u8) -> bool {
    exists|i: int| 0 <= i < config.len() && (#[trigger] config[i]).number == number
}

/// No interface after the one at index `i` has the same number.
pub open spec fn last_declaration(config: Seq<InterfaceDescriptorView>, i: int) -> bool {
    forall|j: int| i < j < config.len() ==> (#[trigger] config[j]).number != config[i].number
}

/// The topology of a configuration: every declared interface number mapped
/// to the description of its last declaration.
pub open spec fn topology_of(config: Seq<InterfaceDescriptorView>) -> Map<u8, InterfaceInfoView>
    decreases config.len(),
{
    if config.len() == 0 {
        Map::empty()
    } else {
        topology_of(config.drop_last()).insert(
            config.last().number,
            describe_interface(config.last()),
        )
    }
}

/// An interface number is in the topology exactly if the configuration
/// declares it, and every entry carries the number it is filed under.
pub proof fn lemma_topology_domain(config: Seq<InterfaceDescriptorView>)
    ensures
        forall|number: u8| #[trigger]
            topology_of(config).contains_key(number) <==> declares(config, number),
        forall|number: u8| #[trigger]
            topology_of(config).contains_key(number) ==> topology_of(config)[number].number
                == number,
    decreases config.len(),
{
    if config.len() > 0 {
        let earlier = config.drop_last();
        lemma_topology_domain(earlier);
        assert forall|number: u8| #[trigger]
            topology_of(config).contains_key(number) <==> declares(config, number) by {
            if declares(config, number) {
                let i = choose|i: int|
                    0 <= i < config.len() && (#[trigger] config[i]).number == number;
                if i < earlier.len() {
                    assert(earlier[i].number == number);
                    assert(declares(earlier, number));
                    assert(topology_of(earlier).contains_key(number));
                }
            }
            if topology_of(config).contains_key(number) {
                if number == config.last().number {
                    assert(config[config.len() - 1].number == number);
                } else {
                    assert(topology_of(earlier).contains_key(number));
                    assert(declares(earlier, number));
                    let i = choose|i: int|
                        0 <= i < earlier.len() && (#[trigger] earlier[i]).number == number;
                    assert(config[i].number == number);
                }
            }
        }
    }
}

/// The entry of an interface number is the description of its last
/// declaration.
pub proof fn lemma_topology_entry(config: Seq<InterfaceDescriptorView>, i: int)
    requires
        0 <= i < config.len(),
        last_declaration(config, i),
    ensures
        topology_of(config).contains_key(config[i].number),
        topology_of(config)[config[i].number] == describe_interface(config[i]),
    decreases config.len(),
{
    if i < config.len() - 1 {
        lemma_topology_entry(config.drop_last(), i);
    }
}

/// The entry of an interface holds every endpoint of the interface exactly
/// once: the two sequences together are as long as the endpoint list, an
/// endpoint declared inward stands among the input addresses and one declared
/// outward among the output addresses, each at the position of its rank.
pub proof fn lemma_topology_partitions_endpoints(config: Seq<InterfaceDescriptorView>, i: int)
    requires
        0 <= i < config.len(),
        last_declaration(config, i),
    ensures
        ({
            let entry = topology_of(config)[config[i].number];
            let endpoints = governing_endpoints(config[i]);
            &&& entry.endpoints_in.len() + entry.endpoints_out.len() == endpoints.len()
            &&& forall|k: int|
                0 <= k < endpoints.len() ==> {
                    let rank = #[trigger] rank_toward(endpoints, endpoints[k].direction, k);
                    match endpoints[k].direction {
                        Direction::In => 0 <= rank < entry.endpoints_in.len()
                            && entry.endpoints_in[rank] == endpoints[k].address,
                        Direction::Out => 0 <= rank < entry.endpoints_out.len()
                            && entry.endpoints_out[rank] == endpoints[k].address,
                    }
                }
        }),
{
    lemma_topology_entry(config, i);
    lemma_endpoints_partitioned(governing_endpoints(config[i]));
}

/// One more interface adds, or replaces, the entry under its number.
pub proof fn lemma_topology_step(config: Seq<InterfaceDescriptorView>, i: int)
    requires
        0 <= i < config.len(),
    ensures
        topology_of(config.take(i + 1)) == topology_of(config.take(i)).insert(
            config[i].number,
            describe_interface(config[i]),
        ),
{
    assert(config.take(i + 1).drop_last() =~= config.take(i));
}

impl InterfaceInfo {
    /// Describes one declared interface.
    pub fn from_descriptor(descriptor: &InterfaceDescriptor) -> (info: InterfaceInfo)
        ensures
            info@ == describe_interface(descriptor@),
    {
        let count = descriptor.settings.len();
        if count == 0 {
            InterfaceInfo {
                number: descriptor.number,
                endpoints_in: Vec::new(),
                endpoints_out: Vec::new(),
            }
        } else {
            let (endpoints_in, endpoints_out) = split_endpoints(
                &descriptor.settings[count - 1].endpoints,
            );
            InterfaceInfo { number: descriptor.number, endpoints_in, endpoints_out }
        }
    }

    /// A copy of the description.
    pub fn duplicate(&self) -> (copy: InterfaceInfo)
        ensures
            copy@ == self@,
    {
        let endpoints_in = self.endpoints_in.clone();
        let endpoints_out = self.endpoints_out.clone();
        InterfaceInfo { number: self.number, endpoints_in, endpoints_out }
    }
}

/// The interfaces of an opened device by number. Built once from the active
/// configuration, and only read afterwards.
pub struct InterfaceTopology {
    interfaces: HashMap<u8, InterfaceInfo>,
}

impl View for InterfaceTopology {
    type V = Map<u8, InterfaceInfoView>;

    closed spec fn view(&self) -> Map<u8, InterfaceInfoView> {
        Map::new(
            |number: u8| self.interfaces@.contains_key(number),
            |number: u8| self.interfaces@[number]@,
        )
    }
}

impl InterfaceTopology {
    /// Reads the topology off a configuration descriptor.
    pub fn from_config(config: &ConfigDescriptor) -> (topology: InterfaceTopology)
        ensures
            topology@ == topology_of(config@),
            forall|number: u8| #[trigger]
                topology@.contains_key(number) <==> declares(config@, number),
            forall|i: int|
                0 <= i < config@.len() && last_declaration(config@, i) ==> topology@[(
                #[trigger] config@[i]).number] == describe_interface(config@[i]),
    {
        proof {
            lemma_topology_domain(config@);
            assert forall|i: int|
                0 <= i < config@.len() && last_declaration(config@, i) implies topology_of(
                config@,
            )[(#[trigger] config@[i]).number] == describe_interface(config@[i]) by {
                lemma_topology_entry(config@, i);
            }
        }
        let mut interfaces: HashMap<u8, InterfaceInfo> = HashMap::new();
        let mut i: usize = 0;
        while i < config.interfaces.len()
            invariant
                0 <= i <= config.interfaces.len(),
                Map::new(
                    |number: u8| interfaces@.contains_key(number),
                    |number: u8| interfaces@[number]@,
                ) == topology_of(config@.take(i as int)),
            decreases config.interfaces.len() - i,
        {
            proof {
                lemma_topology_step(config@, i as int);
            }
            let info = InterfaceInfo::from_descriptor(&config.interfaces[i]);
            interfaces.insert(info.number, info);
            i += 1;
        }
        assert(config@.take(config.interfaces.len() as int) =~= config@);
        InterfaceTopology { interfaces }
    }

    /// Turns the outcome of reading the active configuration descriptor into
    /// a topology. A failed read is fatal to startup.
    pub fn from_descriptor_read(read: Result<ConfigDescriptor, TransportError>) -> (outcome: Result<
        InterfaceTopology,
        Error,
    >)
        ensures
            match read {
                Ok(config) => outcome matches Ok(topology) && topology@ == topology_of(config@),
                Err(cause) => outcome matches Err(error) && error == Error::DescriptorReadFailed(
                    cause,
                ),
            },
    {
        match read {
            Ok(config) => Ok(InterfaceTopology::from_config(&config)),
            Err(cause) => Err(Error::DescriptorReadFailed(cause)),
        }
    }

    /// Looks an interface up by number.
    pub fn get(&self, number: u8) -> (found: Option<&InterfaceInfo>)
        ensures
            match found {
                Some(info) => self@.contains_key(number) && info@ == self@[number],
                None => !self@.contains_key(number),
            },
    {
        self.interfaces.get(&number)
    }

    /// The descriptions of the interfaces with the given numbers, in the
    /// order given. There is none if the configuration lacks one of them.
    pub fn select(&self, numbers: &Vec<u8>) -> (chosen: Option<Vec<InterfaceInfo>>)
        ensures
            chosen is Some <==> forall|i: int|
                0 <= i < numbers@.len() ==> self@.contains_key(#[trigger] numbers@[i]),
            chosen matches Some(infos) ==> {
                &&& infos@.len() == numbers@.len()
                &&& forall|i: int|
                    0 <= i < numbers@.len() ==> (#[trigger] infos@[i])@ == self@[numbers@[i]]
            },
    {
        let mut infos: Vec<InterfaceInfo> = Vec::new();
        let mut i: usize = 0;
        while i < numbers.len()
            invariant
                0 <= i <= numbers.len(),
                infos@.len() == i,
                forall|j: int| 0 <= j < i ==> self@.contains_key(#[trigger] numbers@[j]),
                forall|j: int| 0 <= j < i ==> (#[trigger] infos@[j])@ == self@[numbers@[j]],
            decreases numbers.len() - i,
        {
            match self.get(numbers[i]) {
                Some(info) => infos.push(info.duplicate()),
                None => {
                    return None;
                },
            }
            i += 1;
        }
        Some(infos)
    }

    /// Whether the configuration declared this interface.
    pub fn contains(&self, number: u8) -> (present: bool)
        ensures
            present == self@.contains_key(number),
    {
        self.interfaces.contains_key(&number)
    }
}

} // verus!
