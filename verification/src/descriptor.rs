//! The part of a configuration descriptor that interface discovery reads,
//! held as plain values, and the split of endpoints by direction.

use vstd::prelude::*;

verus! {

/// The direction of a transfer on an endpoint, seen from the host.
#[derive(Clone, Copy, Debug, PartialEq, Eq, Structural)]
pub enum Direction {
    /// Device to host.
    In,
    /// Host to device.
    Out,
}

/// One endpoint as its descriptor declares it.
#[derive(Clone, Copy, Debug, PartialEq, Eq, Structural)]
pub struct EndpointDescriptor {
    /// The endpoint address, as used in transfers.
    pub address: u8,
    /// The declared transfer direction.
    pub direction: Direction,
}

/// One alternate setting of an interface: its endpoints in declared order.
#[derive(Clone, Debug)]
pub struct AlternateSetting {
    pub endpoints: Vec<EndpointDescriptor>,
}

/// One interface of a configuration with its alternate settings in declared
/// order.
#[derive(Clone, Debug)]
pub struct InterfaceDescriptor {
    pub number: u8,
    pub settings: Vec<AlternateSetting>,
}

/// The active configuration of a device: its interfaces in declared order.
#[derive(Clone, Debug)]
pub struct ConfigDescriptor {
    pub interfaces: Vec<InterfaceDescriptor>,
}

/// Mathematical model of an [`InterfaceDescriptor`].
pub struct InterfaceDescriptorView {
    pub number: u8,
    pub settings: Seq<Seq<EndpointDescriptor>>,
}

impl View for AlternateSetting {
    type V = Seq<EndpointDescriptor>;

    open spec fn view(&self) -> Seq<EndpointDescriptor> {
        self.endpoints@
    }
}

impl View for InterfaceDescriptor {
    type V = InterfaceDescriptorView;

    open spec fn view(&self) -> InterfaceDescriptorView {
        InterfaceDescriptorView {
            number: self.number,
            settings: Seq::new(self.settings@.len(), |i: int| self.settings@[i]@),
        }
    }
}

impl View for ConfigDescriptor {
    type V = Seq<InterfaceDescriptorView>;

    open spec fn view(&self) -> Seq<InterfaceDescriptorView> {
        Seq::new(self.interfaces@.len(), |i: int| self.interfaces@[i]@)
    }
}

/// The addresses of the endpoints declared with `direction`, in declared
/// order.
pub open spec fn addresses_toward(endpoints: Seq<EndpointDescriptor>, direction: Direction) -> Seq<
    u8,
>
    decreases endpoints.len(),
{
    if endpoints.len() == 0 {
        Seq::empty()
    } else {
        let earlier = addresses_toward(endpoints.drop_last(), direction);
        if endpoints.last().direction == direction {
            earlier.push(endpoints.last().address)
        } else {
            earlier
        }
    }
}

/// The position that endpoint `i` takes among the endpoints of `direction`:
/// the number of such endpoints declared before it.
pub open spec fn rank_toward(endpoints: Seq<EndpointDescriptor>, direction: Direction, i: int) -> int {
    addresses_toward(endpoints.take(i), direction).len() as int
}

/// One more endpoint extends the sequence of its own direction by its address
/// and leaves the other sequence alone.
pub proof fn lemma_addresses_step(endpoints: Seq<EndpointDescriptor>, direction: Direction, i: int)
    requires
        0 <= i < endpoints.len(),
    ensures
        addresses_toward(endpoints.take(i + 1), direction) == if endpoints[i].direction
            == direction {
            addresses_toward(endpoints.take(i), direction).push(endpoints[i].address)
        } else {
            addresses_toward(endpoints.take(i), direction)
        },
{
    assert(endpoints.take(i + 1).drop_last() =~= endpoints.take(i));
}

/// A longer prefix of the endpoints never yields a shorter, or a different,
/// beginning of the addresses.
pub proof fn lemma_addresses_prefix(
    endpoints: Seq<EndpointDescriptor>,
    direction: Direction,
    i: int,
    j: int,
)
    requires
        0 <= i <= j <= endpoints.len(),
    ensures
        addresses_toward(endpoints.take(i), direction).len() <= addresses_toward(
            endpoints.take(j),
            direction,
        ).len(),
        addresses_toward(endpoints.take(j), direction).take(
            addresses_toward(endpoints.take(i), direction).len() as int,
        ) == addresses_toward(endpoints.take(i), direction),
    decreases j - i,
{
    let shorter = addresses_toward(endpoints.take(i), direction);
    if i < j {
        lemma_addresses_prefix(endpoints, direction, i, j - 1);
        lemma_addresses_step(endpoints, direction, j - 1);
        let before = addresses_toward(endpoints.take(j - 1), direction);
        let after = addresses_toward(endpoints.take(j), direction);
        assert(after.take(shorter.len() as int) =~= before.take(shorter.len() as int));
    } else {
        assert(shorter.take(shorter.len() as int) =~= shorter);
    }
}

/// The split by direction is a partition: the two sequences together are as
/// long as the endpoint list, and every endpoint stands in the sequence of its
/// declared direction, at the position given by the number of endpoints of
/// that direction declared before it.
pub proof fn lemma_endpoints_partitioned(endpoints: Seq<EndpointDescriptor>)
    ensures
        addresses_toward(endpoints, Direction::In).len() + addresses_toward(
            endpoints,
            Direction::Out,
        ).len() == endpoints.len(),
        forall|i: int|
            0 <= i < endpoints.len() ==> {
                let own = addresses_toward(endpoints, endpoints[i].direction);
                let rank = #[trigger] rank_toward(endpoints, endpoints[i].direction, i);
                0 <= rank < own.len() && own[rank] == endpoints[i].address
            },
    decreases endpoints.len(),
{
    if endpoints.len() > 0 {
        let n = endpoints.len() as int;
        let shorter = endpoints.drop_last();
        lemma_endpoints_partitioned(shorter);
        assert(endpoints.take(n) =~= endpoints);
        assert forall|i: int| 0 <= i < endpoints.len() implies {
            let own = addresses_toward(endpoints, endpoints[i].direction);
            let rank = #[trigger] rank_toward(endpoints, endpoints[i].direction, i);
            0 <= rank < own.len() && own[rank] == endpoints[i].address
        } by {
            let d = endpoints[i].direction;
            lemma_addresses_step(endpoints, d, i);
            lemma_addresses_prefix(endpoints, d, i + 1, n);
            let upto = addresses_toward(endpoints.take(i + 1), d);
            assert(upto[rank_toward(endpoints, d, i)] == endpoints[i].address);
        }
    }
}

/// Two endpoints of one direction keep their declared order in the sequence
/// of that direction.
pub proof fn lemma_split_keeps_order(endpoints: Seq<EndpointDescriptor>, i: int, j: int)
    requires
        0 <= i < j < endpoints.len(),
        endpoints[i].direction == endpoints[j].direction,
    ensures
        rank_toward(endpoints, endpoints[i].direction, i) < rank_toward(
            endpoints,
            endpoints[i].direction,
            j,
        ),
{
    let d = endpoints[i].direction;
    lemma_addresses_step(endpoints, d, i);
    lemma_addresses_prefix(endpoints, d, i + 1, j);
}

/// Splits the endpoints of one alternate setting by declared direction.
pub fn split_endpoints(endpoints: &Vec<EndpointDescriptor>) -> (split: (Vec<u8>, Vec<u8>))
    ensures
        split.0@ == addresses_toward(endpoints@, Direction::In),
        split.1@ == addresses_toward(endpoints@, Direction::Out),
        split.0@.len() + split.1@.len() == endpoints@.len(),
{
    proof {
        lemma_endpoints_partitioned(endpoints@);
    }
    let mut inward: Vec<u8> = Vec::new();
    let mut outward: Vec<u8> = Vec::new();
    let mut i: usize = 0;
    while i < endpoints.len()
        invariant
            0 <= i <= endpoints.len(),
            inward@ == addresses_toward(endpoints@.take(i as int), Direction::In),
            outward@ == addresses_toward(endpoints@.take(i as int), Direction::Out),
        decreases endpoints.len() - i,
    {
        proof {
            lemma_addresses_step(endpoints@, Direction::In, i as int);
            lemma_addresses_step(endpoints@, Direction::Out, i as int);
        }
        let endpoint = endpoints[i];
        match endpoint.direction {
            Direction::In => inward.push(endpoint.address),
            Direction::Out => outward.push(endpoint.address),
        }
        i += 1;
    }
    assert(endpoints@.take(endpoints.len() as int) =~= endpoints@);
    (inward, outward)
}

} // verus!
