//! The audio node/device/route mirror.
//!
//! Mirrors the provider's sink and source nodes, the devices that own routes,
//! and translates imperative volume and mute commands into the provider's
//! tagged parameter objects.  A node routed through a device has its command
//! re-encoded as a route object — device, route index, embedded properties,
//! persist flag — while a node with direct parameters gets the bare property
//! object.  Every mutation republishes the full ordered member list of the
//! affected class, never a delta.

use vstd::prelude::*;

use crate::text;
use crate::volume;

verus! {

/// The node classes the mirror tracks; everything else the provider
/// announces is ignored without error.
#[derive(Clone, Copy, Debug, PartialEq, Eq, Structural)]
pub enum NodeClass {
    /// An audio output.
    Sink,
    /// An audio input.
    Source,
}

/// The first value a property dictionary holds under `key`.
pub open spec fn dict_get(props: Seq<(String, String)>, key: Seq<char>) -> Option<Seq<char>>
    decreases props.len(),
{
    if props.len() == 0 {
        None
    } else if props[0].0@ == key {
        Some(props[0].1@)
    } else {
        dict_get(props.skip(1), key)
    }
}

/// Looks a key up in a property dictionary, first match first.
pub fn dict_lookup<'a>(props: &'a Vec<(String, String)>, key: &str) -> (r: Option<&'a String>)
    ensures
        match r {
            Some(v) => dict_get(props@, key@) == Some(v@),
            None => dict_get(props@, key@) is None,
        },
{
    let mut i: usize = 0;
    proof {
        assert(props@.skip(0) =~= props@);
    }
    while i < props.len()
        invariant
            0 <= i <= props@.len(),
            dict_get(props@, key@) == dict_get(props@.skip(i as int), key@),
        decreases props@.len() - i,
    {
        proof {
            assert(props@.skip(i as int)[0] == props@[i as int]);
            assert(props@.skip(i as int).skip(1) =~= props@.skip(i + 1 as int));
        }
        if text::str_eq(props[i].0.as_str(), key) {
            return Some(&props[i].1);
        }
        i = i + 1;
    }
    None
}

/// The route profile a property dictionary assigns, if its value is a
/// well-formed number: an unparsable value leaves the previous one in place.
pub open spec fn route_of_props(props: Seq<(String, String)>, prev: Option<u32>) -> Option<u32> {
    match dict_get(props, "card.profile.device"@) {
        Some(v) => if text::is_numeral(v) && text::digits_value(v) <= u32::MAX {
            Some(text::digits_value(v) as u32)
        } else {
            prev
        },
        None => prev,
    }
}

/// The string field value a property dictionary assigns, or the previous
/// value where the dictionary has none.
pub open spec fn field_of_props(
    props: Seq<(String, String)>,
    key: Seq<char>,
    prev: Seq<char>,
) -> Seq<char> {
    match dict_get(props, key) {
        Some(v) => v,
        None => prev,
    }
}

/// A decoded parameter update for a node: per-channel linear amplitudes
/// and/or a mute flag, as carried by the provider's property object.
pub struct ParamUpdate {
    /// New per-channel volumes, linear.
    pub volumes: Option<Vec<u128>>,
    /// New mute state.
    pub mute: Option<bool>,
}

/// The snapshot of one tracked audio node: immutable per version, always
/// internally consistent.
#[derive(Clone, Debug)]
pub struct NodeState {
    /// The provider's numeric id for the node.
    pub id: u32,
    /// Name of the node.
    pub name: String,
    /// Description (human readable name) of the node.
    pub description: String,
    /// Whether the node is muted.
    pub mute: bool,
    /// Current volume of each channel, on the perceptual scale.
    pub volume: Vec<u32>,
    /// Route profile of this node on its owning device, if any.
    pub route: Option<u32>,
}

impl NodeState {
    /// A blank snapshot for a freshly admitted node.
    pub fn new(id: u32) -> (r: Self)
        ensures
            r.id == id,
            r.name@ == Seq::<char>::empty(),
            r.description@ == Seq::<char>::empty(),
            !r.mute,
            r.volume@ == Seq::<u32>::empty(),
            r.route is None,
    {
        NodeState {
            id,
            name: String::new(),
            description: String::new(),
            mute: false,
            volume: Vec::new(),
            route: None,
        }
    }

    /// Applies a descriptive-property update: name, description and route
    /// profile follow the dictionary, fields the dictionary lacks — or whose
    /// value fails to parse — keep their previous values.  Reports whether
    /// anything actually changed, so an echo of the current values does not
    /// trigger a republish.
    pub fn update_props(&mut self, props: &Vec<(String, String)>) -> (changed: bool)
        ensures
            final(self).id == old(self).id,
            final(self).mute == old(self).mute,
            final(self).volume == old(self).volume,
            final(self).name@ == field_of_props(props@, "node.name"@, old(self).name@),
            final(self).description@ == field_of_props(
                props@,
                "node.description"@,
                old(self).description@,
            ),
            final(self).route == route_of_props(props@, old(self).route),
            changed == (final(self).name@ != old(self).name@ || final(self).description@ != old(self).description@ || final(self).route != old(self).route),
    {
        let mut changed = false;
        match dict_lookup(props, "node.name") {
            Some(name) => {
                changed = changed || !text::str_eq(name.as_str(), self.name.as_str());
                self.name = name.clone();
            },
            None => {},
        }
        match dict_lookup(props, "node.description") {
            Some(description) => {
                changed = changed || !text::str_eq(
                    description.as_str(),
                    self.description.as_str(),
                );
                self.description = description.clone();
            },
            None => {},
        }
        match dict_lookup(props, "card.profile.device") {
            Some(value) => {
                match text::parse_u32(value.as_str()) {
                    Some(id) => {
                        changed = changed || !(match self.route {
                            Some(r) => r == id,
                            None => false,
                        });
                        self.route = Some(id);
                    },
                    None => {},
                }
            },
            None => {},
        }
        changed
    }

    /// Applies a parameter update: volumes arrive linear and are stored on
    /// the perceptual scale, the mute flag is taken as is.  Reports whether
    /// anything actually changed.
    pub fn update_params(&mut self, params: &ParamUpdate) -> (changed: bool)
        ensures
            final(self).id == old(self).id,
            final(self).name == old(self).name,
            final(self).description == old(self).description,
            final(self).route == old(self).route,
            match params.volumes {
                Some(lin) => {
                    &&& final(self).volume@.len() == lin@.len()
                    &&& forall|i: int|
                        0 <= i < lin@.len() ==> (lin@[i] <= volume::cube(u32::MAX as int)
                            ==> volume::cube(#[trigger] final(self).volume@[i] as int) <= lin@[i]
                            < volume::cube(final(self).volume@[i] + 1)) && (lin@[i] > volume::cube(
                            u32::MAX as int,
                        ) ==> final(self).volume@[i] == u32::MAX)
                },
                None => final(self).volume == old(self).volume,
            },
            match params.mute {
                Some(m) => final(self).mute == m,
                None => final(self).mute == old(self).mute,
            },
            changed == (final(self).volume@ != old(self).volume@ || final(self).mute != old(self).mute),
    {
        let mut changed = false;
        match &params.volumes {
            Some(lin) => {
                let mut vols: Vec<u32> = Vec::new();
                let mut i: usize = 0;
                while i < lin.len()
                    invariant
                        0 <= i <= lin@.len(),
                        vols@.len() == i,
                        forall|k: int|
                            0 <= k < i ==> (lin@[k] <= volume::cube(u32::MAX as int)
                                ==> volume::cube(#[trigger] vols@[k] as int) <= lin@[k]
                                < volume::cube(vols@[k] + 1)) && (lin@[k] > volume::cube(
                                u32::MAX as int,
                            ) ==> vols@[k] == u32::MAX),
                    decreases lin@.len() - i,
                {
                    vols.push(volume::linear_to_volume(lin[i]));
                    i = i + 1;
                }
                changed = changed || !vec_u32_eq(&vols, &self.volume);
                self.volume = vols;
            },
            None => {},
        }
        match params.mute {
            Some(m) => {
                changed = changed || m != self.mute;
                self.mute = m;
            },
            None => {},
        }
        changed
    }

    /// The average of the per-channel volumes, zero for a channelless node.
    pub fn average_volume(&self) -> (r: u32)
        requires
            self.volume@.len() * u32::MAX <= u64::MAX,
        ensures
            self.volume@.len() == 0 ==> r == 0,
            self.volume@.len() > 0 ==> r == volume_sum(self.volume@) / self.volume@.len() as int,
    {
        if self.volume.len() == 0 {
            return 0;
        }
        let mut sum: u64 = 0;
        let mut i: usize = 0;
        while i < self.volume.len()
            invariant
                0 <= i <= self.volume@.len(),
                self.volume@.len() * u32::MAX <= u64::MAX,
                sum == volume_sum(self.volume@.subrange(0, i as int)),
                sum <= i * u32::MAX,
            decreases self.volume@.len() - i,
        {
            proof {
                assert(self.volume@.subrange(0, i + 1 as int).drop_last() =~= self.volume@.subrange(
                    0,
                    i as int,
                ));
                lemma_volume_sum_bound(self.volume@.subrange(0, i + 1 as int));
                assert(i + 1 <= self.volume@.len());
                vstd::arithmetic::mul::lemma_mul_inequality(
                    i + 1 as int,
                    self.volume@.len() as int,
                    u32::MAX as int,
                );
            }
            sum = sum + self.volume[i] as u64;
            i = i + 1;
        }
        proof {
            assert(self.volume@.subrange(0, self.volume@.len() as int) =~= self.volume@);
            lemma_volume_sum_bound(self.volume@);
            let n = self.volume@.len() as int;
            vstd::arithmetic::div_mod::lemma_div_is_ordered(sum as int, n * u32::MAX, n);
            vstd::arithmetic::mul::lemma_mul_is_commutative(n, u32::MAX as int);
            vstd::arithmetic::div_mod::lemma_div_multiples_vanish(u32::MAX as int, n);
        }
        (sum / self.volume.len() as u64) as u32
    }

    /// The mathematical content of this snapshot.
    pub open spec fn view_of(self) -> (int, Seq<char>, Seq<char>, bool, Seq<u32>, Option<u32>) {
        (self.id as int, self.name@, self.description@, self.mute, self.volume@, self.route)
    }

    /// An exact copy of this snapshot.
    pub fn duplicate(&self) -> (r: Self)
        ensures
            r.view_of() == self.view_of(),
    {
        let mut volume: Vec<u32> = Vec::new();
        let mut i: usize = 0;
        while i < self.volume.len()
            invariant
                0 <= i <= self.volume@.len(),
                volume@ == self.volume@.subrange(0, i as int),
            decreases self.volume@.len() - i,
        {
            volume.push(self.volume[i]);
            proof {
                assert(volume@ =~= self.volume@.subrange(0, i + 1 as int));
            }
            i = i + 1;
        }
        proof {
            assert(volume@ =~= self.volume@);
        }
        NodeState {
            id: self.id,
            name: self.name.clone(),
            description: self.description.clone(),
            mute: self.mute,
            volume,
            route: self.route,
        }
    }
}

/// The sum of a volume vector.
pub open spec fn volume_sum(vs: Seq<u32>) -> int
    decreases vs.len(),
{
    if vs.len() == 0 {
        0
    } else {
        volume_sum(vs.drop_last()) + vs.last()
    }
}

/// A volume sum is bounded by the channel count times the scale maximum.
proof fn lemma_volume_sum_bound(vs: Seq<u32>)
    ensures
        0 <= volume_sum(vs) <= vs.len() * u32::MAX,
    decreases vs.len(),
{
    if vs.len() == 0 {
    } else {
        lemma_volume_sum_bound(vs.drop_last());
        assert((vs.len() - 1) * u32::MAX + u32::MAX == vs.len() * u32::MAX) by (nonlinear_arith);
    }
}

/// Compares two volume vectors element by element.
fn vec_u32_eq(a: &Vec<u32>, b: &Vec<u32>) -> (r: bool)
    ensures
        r == (a@ == b@),
{
    if a.len() != b.len() {
        proof {
            assert(a@.len() != b@.len());
        }
        return false;
    }
    let mut i: usize = 0;
    while i < a.len()
        invariant
            0 <= i <= a@.len(),
            a@.len() == b@.len(),
            forall|k: int| 0 <= k < i ==> a@[k] == b@[k],
        decreases a@.len() - i,
    {
        if a[i] != b[i] {
            return false;
        }
        i = i + 1;
    }
    proof {
        assert(a@ =~= b@);
    }
    true
}

/// One tracked node: the provider id, the owning device if the node is
/// routed through one, its class, and the current snapshot.
pub struct NodeEntry {
    /// The provider's id of the node.
    pub id: u32,
    /// The owning device, for a node whose parameters travel by route.
    pub device: Option<u32>,
    /// Whether the node is a sink or a source.
    pub class: NodeClass,
    /// The node's current snapshot.
    pub state: NodeState,
}

/// One tracked device: the provider id and the route-index table, mapping a
/// route id to the provider's internal parameter index for that route.
pub struct DeviceEntry {
    /// The provider's id of the device.
    pub id: u32,
    /// Route id to parameter index, populated from route enumerations.
    pub routes: Vec<(u32, u32)>,
}

/// The property a command carries.
#[derive(Debug, PartialEq, Eq)]
pub enum CommandProp {
    /// Per-channel volumes, linear, as the wire expects them.
    ChannelVolumes(Vec<u128>),
    /// The mute flag.
    MuteFlag(bool),
}

/// A command encoded for the provider.
#[derive(Debug, PartialEq, Eq)]
pub enum EncodedCommand {
    /// The bare property object, sent directly to the node.
    Direct {
        /// The node to address.
        node: u32,
        /// The property object.
        prop: CommandProp,
    },
    /// The route object for a node routed through a device: the device to
    /// address, the route id and its parameter index, the embedded property
    /// object, and the persist flag.
    Routed {
        /// The device to address.
        device: u32,
        /// The route id the node is on.
        route: u32,
        /// The provider's parameter index for that route.
        index: u32,
        /// The embedded property object.
        prop: CommandProp,
        /// Whether the provider shall persist the setting.
        persist: bool,
    },
}

/// Why a command could not be encoded; it is logged and dropped, never fatal.
#[derive(Clone, Copy, Debug, PartialEq, Eq, Structural)]
pub enum SetError {
    /// No tracked node bears the requested display name.
    NotTracked,
    /// The node is routed through a device but reports no route.
    NoRoute,
    /// The node's owning device is not tracked.
    DeviceNotTracked,
    /// The device's table has no parameter index for the node's route.
    NoRouteIndex,
}

/// A decoded route-parameter update of a device, as the provider delivers
/// it: any field may be missing, and an incomplete update is dropped.
pub struct RouteUpdate {
    /// The route id the update is about.
    pub route: Option<u32>,
    /// The provider's parameter index for that route.
    pub index: Option<u32>,
    /// The embedded node properties.
    pub props: Option<ParamUpdate>,
}

/// `i` is the position of the first tracked node bearing `name`.
pub open spec fn first_name_match(nodes: Seq<NodeEntry>, name: Seq<char>, i: int) -> bool {
    &&& 0 <= i < nodes.len()
    &&& nodes[i].state.name@ == name
    &&& forall|k: int| 0 <= k < i ==> (#[trigger] nodes[k]).state.name@ != name
}

/// `i` is the position of the node with provider id `id`.
pub open spec fn node_at(nodes: Seq<NodeEntry>, id: u32, i: int) -> bool {
    &&& 0 <= i < nodes.len()
    &&& nodes[i].id == id
    &&& forall|k: int| 0 <= k < i ==> (#[trigger] nodes[k]).id != id
}

/// `i` is the position of the first node owned by device `device` and routed
/// over `route`.
pub open spec fn routed_node_at(nodes: Seq<NodeEntry>, device: u32, route: u32, i: int) -> bool {
    &&& 0 <= i < nodes.len()
    &&& nodes[i].device == Some(device)
    &&& nodes[i].state.route == Some(route)
    &&& forall|k: int|
        0 <= k < i ==> !((#[trigger] nodes[k]).device == Some(device) && nodes[k].state.route
            == Some(route))
}

/// `j` is the position of the device with provider id `id`.
pub open spec fn device_at(devices: Seq<DeviceEntry>, id: u32, j: int) -> bool {
    &&& 0 <= j < devices.len()
    &&& devices[j].id == id
    &&& forall|k: int| 0 <= k < j ==> (#[trigger] devices[k]).id != id
}

/// The parameter index a route table assigns to `route`: the first entry
/// with that route id.
pub open spec fn route_index(routes: Seq<(u32, u32)>, route: u32) -> Option<u32>
    decreases routes.len(),
{
    if routes.len() == 0 {
        None
    } else if routes[0].0 == route {
        Some(routes[0].1)
    } else {
        route_index(routes.skip(1), route)
    }
}

/// Exactly how a set command for the node named `name` is encoded, given the
/// tracked nodes and devices.  The target node is the first one bearing the
/// display name, in current collection order.  A node routed through a
/// device yields the route object — device, route, index, embedded property,
/// persist — provided the route and its index are known; a node without a
/// device yields the bare property object.
pub open spec fn encodes(
    nodes: Seq<NodeEntry>,
    devices: Seq<DeviceEntry>,
    name: Seq<char>,
    prop: CommandProp,
    r: Result<EncodedCommand, SetError>,
) -> bool {
    if forall|k: int| 0 <= k < nodes.len() ==> (#[trigger] nodes[k]).state.name@ != name {
        r == Result::<EncodedCommand, SetError>::Err(SetError::NotTracked)
    } else {
        exists|i: int|
            #[trigger] first_name_match(nodes, name, i) && (match nodes[i].device {
                None => r == Result::<EncodedCommand, SetError>::Ok(
                    EncodedCommand::Direct { node: nodes[i].id, prop },
                ),
                Some(d) => match nodes[i].state.route {
                    None => r == Result::<EncodedCommand, SetError>::Err(SetError::NoRoute),
                    Some(route) => if forall|k: int|
                        0 <= k < devices.len() ==> (#[trigger] devices[k]).id != d {
                        r == Result::<EncodedCommand, SetError>::Err(SetError::DeviceNotTracked)
                    } else {
                        exists|j: int|
                            #[trigger] device_at(devices, d, j) && (match route_index(
                                devices[j].routes@,
                                route,
                            ) {
                                None => r == Result::<EncodedCommand, SetError>::Err(
                                    SetError::NoRouteIndex,
                                ),
                                Some(index) => r == Result::<EncodedCommand, SetError>::Ok(
                                    EncodedCommand::Routed {
                                        device: d,
                                        route,
                                        index,
                                        prop,
                                        persist: true,
                                    },
                                ),
                            })
                    },
                },
            })
    }
}

/// The class-level collection snapshot: the views of every tracked member of
/// `class`, in tracking order.
pub open spec fn class_views(nodes: Seq<NodeEntry>, class: NodeClass) -> Seq<
    (int, Seq<char>, Seq<char>, bool, Seq<u32>, Option<u32>),
>
    decreases nodes.len(),
{
    if nodes.len() == 0 {
        Seq::empty()
    } else {
        let init = class_views(nodes.drop_last(), class);
        if nodes.last().class == class {
            init.push(nodes.last().state.view_of())
        } else {
            init
        }
    }
}

/// The tracker of audio nodes and route-owning devices, exclusively owned by
/// the mirror's worker.
pub struct NodeTracker {
    nodes: Vec<NodeEntry>,
    devices: Vec<DeviceEntry>,
}

impl NodeTracker {
    /// The tracked nodes, in tracking order.
    pub closed spec fn nodes_view(self) -> Seq<NodeEntry> {
        self.nodes@
    }

    /// The tracked devices, in tracking order.
    pub closed spec fn devices_view(self) -> Seq<DeviceEntry> {
        self.devices@
    }

    /// Node and device ids are each tracked at most once.
    pub open spec fn wf(self) -> bool {
        &&& forall|i: int, j: int|
            0 <= i < j < self.nodes_view().len() ==> (#[trigger] self.nodes_view()[i]).id != (
            #[trigger] self.nodes_view()[j]).id
        &&& forall|i: int, j: int|
            0 <= i < j < self.devices_view().len() ==> (#[trigger] self.devices_view()[i]).id != (
            #[trigger] self.devices_view()[j]).id
    }

    /// Whether a node with provider id `id` is tracked.
    pub open spec fn tracks_node(self, id: u32) -> bool {
        exists|i: int|
            0 <= i < self.nodes_view().len() && (#[trigger] self.nodes_view()[i]).id == id
    }

    /// Whether a device with provider id `id` is tracked.
    pub open spec fn tracks_device(self, id: u32) -> bool {
        exists|j: int|
            0 <= j < self.devices_view().len() && (#[trigger] self.devices_view()[j]).id == id
    }

    /// An empty tracker.
    pub fn new() -> (r: Self)
        ensures
            r.wf(),
            r.nodes_view() == Seq::<NodeEntry>::empty(),
            r.devices_view() == Seq::<DeviceEntry>::empty(),
    {
        NodeTracker { nodes: Vec::new(), devices: Vec::new() }
    }

    /// Decides whether a freshly announced object is a node of interest: only
    /// the sink and source audio classes are admitted, everything else is
    /// ignored without error.
    pub fn admit_class(props: &Vec<(String, String)>) -> (r: Option<NodeClass>)
        ensures
            match dict_get(props@, "media.class"@) {
                Some(v) => {
                    &&& v == "Audio/Sink"@ ==> r == Some(NodeClass::Sink)
                    &&& v == "Audio/Source"@ ==> r == Some(NodeClass::Source)
                    &&& v != "Audio/Sink"@ && v != "Audio/Source"@ ==> r is None
                },
                None => r is None,
            },
    {
        proof {
            reveal_strlit("Audio/Sink");
            reveal_strlit("Audio/Source");
            assert("Audio/Sink"@.len() == 10);
            assert("Audio/Source"@.len() == 12);
        }
        match dict_lookup(props, "media.class") {
            Some(class) => {
                if text::str_eq(class.as_str(), "Audio/Sink") {
                    Some(NodeClass::Sink)
                } else if text::str_eq(class.as_str(), "Audio/Source") {
                    Some(NodeClass::Source)
                } else {
                    None
                }
            },
            None => None,
        }
    }

    /// The owning device an announced node names, if its id parses as a
    /// number; a malformed id counts as no device.
    pub fn device_of_props(props: &Vec<(String, String)>) -> (r: Option<u32>)
        ensures
            match dict_get(props@, "device.id"@) {
                Some(v) => r == (if text::is_numeral(v) && text::digits_value(v) <= u32::MAX {
                    Some(text::digits_value(v) as u32)
                } else {
                    Option::<u32>::None
                }),
                None => r is None,
            },
    {
        match dict_lookup(props, "device.id") {
            Some(v) => text::parse_u32(v.as_str()),
            None => None,
        }
    }

    /// Starts tracking a freshly bound node: a blank snapshot takes the
    /// announced properties, and the full member list of the node's class is
    /// returned for republishing.
    pub fn add_node(
        &mut self,
        id: u32,
        class: NodeClass,
        device: Option<u32>,
        props: &Vec<(String, String)>,
    ) -> (out: Vec<NodeState>)
        requires
            old(self).wf(),
            !old(self).tracks_node(id),
        ensures
            final(self).wf(),
            final(self).devices_view() == old(self).devices_view(),
            final(self).nodes_view().len() == old(self).nodes_view().len() + 1,
            final(self).nodes_view().subrange(0, old(self).nodes_view().len() as int) == old(self).nodes_view(),
            ({
                let e = final(self).nodes_view().last();
                &&& e.id == id
                &&& e.class == class
                &&& e.device == device
                &&& e.state.id == id
                &&& e.state.name@ == field_of_props(props@, "node.name"@, Seq::<char>::empty())
                &&& e.state.description@ == field_of_props(
                    props@,
                    "node.description"@,
                    Seq::<char>::empty(),
                )
                &&& e.state.route == route_of_props(props@, None)
                &&& !e.state.mute
                &&& e.state.volume@ == Seq::<u32>::empty()
            }),
            out@.map_values(|n: NodeState| n.view_of()) == class_views(
                final(self).nodes_view(),
                class,
            ),
    {
        let mut state = NodeState::new(id);
        let _ = state.update_props(props);
        self.nodes.push(NodeEntry { id, device, class, state });
        proof {
            assert forall|p: int, q: int| 0 <= p < q < self.nodes@.len() implies (
            #[trigger] self.nodes@[p]).id != (#[trigger] self.nodes@[q]).id by {
                if q == self.nodes@.len() - 1 {
                    assert(old(self).nodes_view()[p] == self.nodes@[p]);
                    if self.nodes@[p].id == id {
                        assert(old(self).tracks_node(id));
                    }
                } else {
                    assert(old(self).nodes_view()[p] == self.nodes@[p]);
                    assert(old(self).nodes_view()[q] == self.nodes@[q]);
                }
            }
            assert forall|p: int, q: int| 0 <= p < q < self.devices@.len() implies (
            #[trigger] self.devices@[p]).id != (#[trigger] self.devices@[q]).id by {
                assert(old(self).devices_view()[p] == self.devices@[p]);
                assert(old(self).devices_view()[q] == self.devices@[q]);
            }
        }
        self.snapshot(class)
    }

    /// Starts tracking a route-owning device with an empty route table.
    pub fn add_device(&mut self, id: u32)
        requires
            old(self).wf(),
            !old(self).tracks_device(id),
        ensures
            final(self).wf(),
            final(self).nodes_view() == old(self).nodes_view(),
            final(self).devices_view().len() == old(self).devices_view().len() + 1,
            final(self).devices_view().subrange(0, old(self).devices_view().len() as int) == old(self).devices_view(),
            final(self).devices_view().last().id == id,
            final(self).devices_view().last().routes@ == Seq::<(u32, u32)>::empty(),
    {
        self.devices.push(DeviceEntry { id, routes: Vec::new() });
        proof {
            assert forall|p: int, q: int| 0 <= p < q < self.devices@.len() implies (
            #[trigger] self.devices@[p]).id != (#[trigger] self.devices@[q]).id by {
                if q == self.devices@.len() - 1 {
                    assert(old(self).devices_view()[p] == self.devices@[p]);
                    if self.devices@[p].id == id {
                        assert(old(self).tracks_device(id));
                    }
                } else {
                    assert(old(self).devices_view()[p] == self.devices@[p]);
                    assert(old(self).devices_view()[q] == self.devices@[q]);
                }
            }
        }
    }

    /// Stops tracking whatever object carries the departed id — a node, a
    /// device, or neither — and names the class whose member list must be
    /// republished, if a node left.
    pub fn remove(&mut self, id: u32) -> (r: Option<NodeClass>)
        requires
            old(self).wf(),
        ensures
            final(self).wf(),
            ({
                let nodes = old(self).nodes_view();
                if old(self).tracks_node(id) {
                    exists|i: int|
                        #[trigger] node_at(nodes, id, i) && final(self).nodes_view()
                            == nodes.subrange(0, i) + nodes.subrange(i + 1, nodes.len() as int)
                            && r == Some(nodes[i].class)
                } else {
                    final(self).nodes_view() == nodes && r is None
                }
            }),
            ({
                let devices = old(self).devices_view();
                if old(self).tracks_device(id) {
                    exists|j: int|
                        #[trigger] device_at(devices, id, j) && final(self).devices_view()
                            == devices.subrange(0, j) + devices.subrange(
                            j + 1,
                            devices.len() as int,
                        )
                } else {
                    final(self).devices_view() == devices
                }
            }),
    {
        let ghost old_nodes = self.nodes@;
        let ghost old_devices = self.devices@;
        let mut r: Option<NodeClass> = None;
        match self.node_position(id) {
            Some(i) => {
                let removed = self.nodes.remove(i);
                r = Some(removed.class);
                proof {
                    assert(self.nodes@ =~= old_nodes.subrange(0, i as int) + old_nodes.subrange(
                        i + 1 as int,
                        old_nodes.len() as int,
                    ));
                    lemma_remove_keeps_unique_nodes(old_nodes, i as int);
                }
            },
            None => {},
        }
        match self.device_position(id) {
            Some(j) => {
                let _ = self.devices.remove(j);
                proof {
                    assert(self.devices@ =~= old_devices.subrange(0, j as int)
                        + old_devices.subrange(j + 1 as int, old_devices.len() as int));
                    lemma_remove_keeps_unique_devices(old_devices, j as int);
                }
            },
            None => {},
        }
        r
    }

    /// The position of the node with provider id `id`.
    fn node_position(&self, id: u32) -> (r: Option<usize>)
        ensures
            match r {
                Some(i) => node_at(self.nodes_view(), id, i as int),
                None => !self.tracks_node(id),
            },
    {
        let mut i: usize = 0;
        while i < self.nodes.len()
            invariant
                0 <= i <= self.nodes@.len(),
                forall|k: int| 0 <= k < i ==> (#[trigger] self.nodes@[k]).id != id,
            decreases self.nodes@.len() - i,
        {
            if self.nodes[i].id == id {
                return Some(i);
            }
            i = i + 1;
        }
        None
    }

    /// The position of the device with provider id `id`.
    fn device_position(&self, id: u32) -> (r: Option<usize>)
        ensures
            match r {
                Some(j) => device_at(self.devices_view(), id, j as int),
                None => !self.tracks_device(id),
            },
    {
        let mut j: usize = 0;
        while j < self.devices.len()
            invariant
                0 <= j <= self.devices@.len(),
                forall|k: int| 0 <= k < j ==> (#[trigger] self.devices@[k]).id != id,
            decreases self.devices@.len() - j,
        {
            if self.devices[j].id == id {
                return Some(j);
            }
            j = j + 1;
        }
        None
    }

    /// The full ordered member list of one class: every tracked node's
    /// current snapshot, never a delta.
    pub fn snapshot(&self, class: NodeClass) -> (out: Vec<NodeState>)
        ensures
            out@.map_values(|n: NodeState| n.view_of()) == class_views(self.nodes_view(), class),
    {
        let mut out: Vec<NodeState> = Vec::new();
        let mut i: usize = 0;
        while i < self.nodes.len()
            invariant
                0 <= i <= self.nodes@.len(),
                out@.map_values(|n: NodeState| n.view_of()) == class_views(
                    self.nodes@.subrange(0, i as int),
                    class,
                ),
            decreases self.nodes@.len() - i,
        {
            let ghost prefix = self.nodes@.subrange(0, i as int);
            if self.nodes[i].class == class {
                out.push(self.nodes[i].state.duplicate());
            }
            proof {
                assert(self.nodes@.subrange(0, i + 1 as int).drop_last() =~= prefix);
                assert(self.nodes@.subrange(0, i + 1 as int).last() == self.nodes@[i as int]);
                assert(out@.map_values(|n: NodeState| n.view_of()) =~= class_views(
                    self.nodes@.subrange(0, i + 1 as int),
                    class,
                ));
            }
            i = i + 1;
        }
        proof {
            assert(self.nodes@.subrange(0, self.nodes@.len() as int) =~= self.nodes@);
        }
        out
    }
}

/// Removing an entry keeps the remaining node ids unique.
proof fn lemma_remove_keeps_unique_nodes(nodes: Seq<NodeEntry>, i: int)
    requires
        0 <= i < nodes.len(),
        forall|p: int, q: int|
            0 <= p < q < nodes.len() ==> (#[trigger] nodes[p]).id != (#[trigger] nodes[q]).id,
    ensures
        ({
            let rest = nodes.subrange(0, i) + nodes.subrange(i + 1, nodes.len() as int);
            forall|p: int, q: int|
                0 <= p < q < rest.len() ==> (#[trigger] rest[p]).id != (#[trigger] rest[q]).id
        }),
{
    let rest = nodes.subrange(0, i) + nodes.subrange(i + 1, nodes.len() as int);
    assert forall|p: int, q: int| 0 <= p < q < rest.len() implies (#[trigger] rest[p]).id != (
    #[trigger] rest[q]).id by {
        let p0 = if p < i { p } else { p + 1 };
        let q0 = if q < i { q } else { q + 1 };
        assert(rest[p] == nodes[p0]);
        assert(rest[q] == nodes[q0]);
    }
}

/// Removing an entry keeps the remaining device ids unique.
proof fn lemma_remove_keeps_unique_devices(devices: Seq<DeviceEntry>, i: int)
    requires
        0 <= i < devices.len(),
        forall|p: int, q: int|
            0 <= p < q < devices.len() ==> (#[trigger] devices[p]).id != (
            #[trigger] devices[q]).id,
    ensures
        ({
            let rest = devices.subrange(0, i) + devices.subrange(i + 1, devices.len() as int);
            forall|p: int, q: int|
                0 <= p < q < rest.len() ==> (#[trigger] rest[p]).id != (#[trigger] rest[q]).id
        }),
{
    let rest = devices.subrange(0, i) + devices.subrange(i + 1, devices.len() as int);
    assert forall|p: int, q: int| 0 <= p < q < rest.len() implies (#[trigger] rest[p]).id != (
    #[trigger] rest[q]).id by {
        let p0 = if p < i { p } else { p + 1 };
        let q0 = if q < i { q } else { q + 1 };
        assert(rest[p] == devices[p0]);
        assert(rest[q] == devices[q0]);
    }
}

impl NodeTracker {
    /// Applies a descriptive-property event to the tracked node `id`, and
    /// names the class whose member list must be republished when something
    /// actually changed.  An event for an untracked node — a stray leftover
    /// of a removed object — changes nothing.
    pub fn update_props(&mut self, id: u32, props: &Vec<(String, String)>) -> (r: Option<
        NodeClass,
    >)
        requires
            old(self).wf(),
        ensures
            final(self).wf(),
            final(self).devices_view() == old(self).devices_view(),
            !old(self).tracks_node(id) ==> final(self).nodes_view() == old(self).nodes_view()
                && r is None,
            old(self).tracks_node(id) ==> exists|i: int|
                {
                    &&& #[trigger] node_at(old(self).nodes_view(), id, i)
                    &&& ({
                        let nodes = old(self).nodes_view();
                        let e = nodes[i];
                        let f = final(self).nodes_view()[i];
                        &&& final(self).nodes_view().len() == nodes.len()
                        &&& forall|k: int|
                            0 <= k < nodes.len() && k != i ==> final(self).nodes_view()[k]
                                == nodes[k]
                        &&& f.id == e.id
                        &&& f.class == e.class
                        &&& f.device == e.device
                        &&& f.state.id == e.state.id
                        &&& f.state.mute == e.state.mute
                        &&& f.state.volume@ == e.state.volume@
                        &&& f.state.name@ == field_of_props(props@, "node.name"@, e.state.name@)
                        &&& f.state.description@ == field_of_props(
                            props@,
                            "node.description"@,
                            e.state.description@,
                        )
                        &&& f.state.route == route_of_props(props@, e.state.route)
                        &&& r == (if f.state.name@ != e.state.name@ || f.state.description@
                            != e.state.description@ || f.state.route != e.state.route {
                            Some(e.class)
                        } else {
                            Option::<NodeClass>::None
                        })
                    })
                },
    {
        match self.node_position(id) {
            None => None,
            Some(i) => {
                let mut state = self.nodes[i].state.duplicate();
                let changed = state.update_props(props);
                let entry = NodeEntry {
                    id: self.nodes[i].id,
                    device: self.nodes[i].device,
                    class: self.nodes[i].class,
                    state,
                };
                let class = entry.class;
                self.nodes.set(i, entry);
                proof {
                    lemma_set_keeps_unique_nodes(old(self).nodes_view(), self.nodes@, i as int);
                    lemma_devices_unique_transfer(old(self).devices_view(), self.devices@);
                }
                if changed {
                    Some(class)
                } else {
                    None
                }
            },
        }
    }

    /// Applies a parameter event delivered directly to the tracked node
    /// `id`.  A node routed through a device is skipped — its parameters
    /// arrive with the device's route updates instead — and a stray event
    /// for an untracked node changes nothing.
    pub fn update_params_node(&mut self, id: u32, params: &ParamUpdate) -> (r: Option<NodeClass>)
        requires
            old(self).wf(),
        ensures
            final(self).wf(),
            final(self).devices_view() == old(self).devices_view(),
            !old(self).tracks_node(id) ==> final(self).nodes_view() == old(self).nodes_view()
                && r is None,
            old(self).tracks_node(id) ==> exists|i: int|
                {
                    &&& #[trigger] node_at(old(self).nodes_view(), id, i)
                    &&& ({
                        let nodes = old(self).nodes_view();
                        let e = nodes[i];
                        if e.device is Some {
                            final(self).nodes_view() == nodes && r is None
                        } else {
                            let f = final(self).nodes_view()[i];
                            &&& final(self).nodes_view().len() == nodes.len()
                            &&& forall|k: int|
                                0 <= k < nodes.len() && k != i ==> final(self).nodes_view()[k]
                                    == nodes[k]
                            &&& f.id == e.id
                            &&& f.class == e.class
                            &&& f.device == e.device
                            &&& param_step(e.state, f.state, *params)
                            &&& r == (if f.state.volume@ != e.state.volume@ || f.state.mute
                                != e.state.mute {
                                Some(e.class)
                            } else {
                                Option::<NodeClass>::None
                            })
                        }
                    })
                },
    {
        match self.node_position(id) {
            None => None,
            Some(i) => {
                if self.nodes[i].device.is_some() {
                    return None;
                }
                let mut state = self.nodes[i].state.duplicate();
                let changed = state.update_params(params);
                let entry = NodeEntry {
                    id: self.nodes[i].id,
                    device: self.nodes[i].device,
                    class: self.nodes[i].class,
                    state,
                };
                let class = entry.class;
                self.nodes.set(i, entry);
                proof {
                    lemma_set_keeps_unique_nodes(old(self).nodes_view(), self.nodes@, i as int);
                    lemma_devices_unique_transfer(old(self).devices_view(), self.devices@);
                }
                if changed {
                    Some(class)
                } else {
                    None
                }
            },
        }
    }

    /// Applies a decoded route-parameter update of device `id`: the route's
    /// parameter index is recorded in the device's table, and the embedded
    /// properties go to the first node routed through this device over that
    /// route.  An incomplete update is dropped whole.
    pub fn update_params_device(&mut self, id: u32, update: RouteUpdate) -> (r: Option<NodeClass>)
        requires
            old(self).wf(),
        ensures
            final(self).wf(),
            match (update.route, update.index, update.props) {
                (Some(route), Some(index), Some(params)) => {
                    &&& route_table_step(
                        old(self).devices_view(),
                        final(self).devices_view(),
                        id,
                        route,
                        index,
                    )
                    &&& ({
                        let nodes = old(self).nodes_view();
                        if forall|k: int|
                            0 <= k < nodes.len() ==> !((#[trigger] nodes[k]).device == Some(id)
                                && nodes[k].state.route == Some(route)) {
                            final(self).nodes_view() == nodes && r is None
                        } else {
                            exists|i: int|
                                {
                                    &&& #[trigger] routed_node_at(nodes, id, route, i)
                                    &&& ({
                                        let e = nodes[i];
                                        let f = final(self).nodes_view()[i];
                                        &&& final(self).nodes_view().len() == nodes.len()
                                        &&& forall|k: int|
                                            0 <= k < nodes.len() && k != i ==> final(self).nodes_view()[k] == nodes[k]
                                        &&& f.id == e.id
                                        &&& f.class == e.class
                                        &&& f.device == e.device
                                        &&& param_step(e.state, f.state, params)
                                        &&& r == (if f.state.volume@ != e.state.volume@
                                            || f.state.mute != e.state.mute {
                                            Some(e.class)
                                        } else {
                                            Option::<NodeClass>::None
                                        })
                                    })
                                }
                        }
                    })
                },
                _ => final(self).nodes_view() == old(self).nodes_view() && final(self).devices_view() == old(self).devices_view() && r is None,
            },
    {
        let route = match update.route {
            Some(route) => route,
            None => {
                proof {
                    lemma_nodes_unique_transfer(old(self).nodes_view(), self.nodes@);
                    lemma_devices_unique_transfer(old(self).devices_view(), self.devices@);
                }
                return None;
            },
        };
        let index = match update.index {
            Some(index) => index,
            None => {
                proof {
                    lemma_nodes_unique_transfer(old(self).nodes_view(), self.nodes@);
                    lemma_devices_unique_transfer(old(self).devices_view(), self.devices@);
                }
                return None;
            },
        };
        let params = match update.props {
            Some(params) => params,
            None => {
                proof {
                    lemma_nodes_unique_transfer(old(self).nodes_view(), self.nodes@);
                    lemma_devices_unique_transfer(old(self).devices_view(), self.devices@);
                }
                return None;
            },
        };
        match self.device_position(id) {
            Some(j) => {
                let ghost old_devices = self.devices@;
                let entry = self.devices.remove(j);
                let mut routes = entry.routes;
                route_upsert(&mut routes, route, index);
                self.devices.insert(j, DeviceEntry { id: entry.id, routes });
                proof {
                    assert(self.devices@.len() == old_devices.len());
                    assert forall|k: int|
                        0 <= k < old_devices.len() && k != j as int implies self.devices@[k]
                        == old_devices[k] by {
                        if k < j as int {
                            assert(self.devices@[k] == old_devices.remove(j as int)[k]);
                        } else {
                            assert(self.devices@[k] == old_devices.remove(j as int)[k - 1]);
                        }
                    }
                    assert(self.devices@[j as int].id == old_devices[j as int].id);
                    lemma_set_keeps_unique_devices(old_devices, self.devices@, j as int);
                    assert(device_at(old(self).devices_view(), id, j as int));
                    assert(route_table_step(
                        old(self).devices_view(),
                        self.devices@,
                        id,
                        route,
                        index,
                    ));
                }
            },
            None => {
                proof {
                    lemma_devices_unique_transfer(old(self).devices_view(), self.devices@);
                    assert(route_table_step(
                        old(self).devices_view(),
                        self.devices@,
                        id,
                        route,
                        index,
                    ));
                }
            },
        }
        let ghost mid_devices = self.devices@;
        let mut i: usize = 0;
        while i < self.nodes.len()
            invariant
                0 <= i <= self.nodes@.len(),
                forall|k: int|
                    0 <= k < i ==> !((#[trigger] self.nodes@[k]).device == Some(id)
                        && self.nodes@[k].state.route == Some(route)),
                self.nodes@ == old(self).nodes_view(),
                self.devices@ == mid_devices,
            decreases self.nodes@.len() - i,
        {
            if self.nodes[i].device.is_some() && self.nodes[i].device.unwrap() == id
                && self.nodes[i].state.route.is_some() && self.nodes[i].state.route.unwrap()
                == route {
                let mut state = self.nodes[i].state.duplicate();
                let changed = state.update_params(&params);
                let entry = NodeEntry {
                    id: self.nodes[i].id,
                    device: self.nodes[i].device,
                    class: self.nodes[i].class,
                    state,
                };
                let class = entry.class;
                self.nodes.set(i, entry);
                proof {
                    assert(routed_node_at(old(self).nodes_view(), id, route, i as int));
                    lemma_set_keeps_unique_nodes(old(self).nodes_view(), self.nodes@, i as int);
                }
                if changed {
                    return Some(class);
                } else {
                    return None;
                }
            }
            i = i + 1;
        }
        proof {
            lemma_nodes_unique_transfer(old(self).nodes_view(), self.nodes@);
        }
        None
    }
}

/// How a route-parameter update settles the device table: the updated
/// device's table maps the route to the new index and keeps every other
/// route's entry; every other device is untouched; an update for an
/// untracked device changes nothing, and the table never errors.
pub open spec fn route_table_step(
    before: Seq<DeviceEntry>,
    after: Seq<DeviceEntry>,
    id: u32,
    route: u32,
    index: u32,
) -> bool {
    &&& ((forall|k: int| 0 <= k < before.len() ==> (#[trigger] before[k]).id != id) ==> after
        == before)
    &&& ((exists|k: int| 0 <= k < before.len() && (#[trigger] before[k]).id == id) ==> exists|
    j: int|
        {
            &&& #[trigger] device_at(before, id, j)
            &&& after.len() == before.len()
            &&& forall|k: int| 0 <= k < before.len() && k != j ==> after[k] == before[k]
            &&& after[j].id == before[j].id
            &&& forall|q: u32|
                #[trigger] route_index(after[j].routes@, q) == (if q == route {
                    Some(index)
                } else {
                    route_index(before[j].routes@, q)
                })
        })
    &&& forall|p: int, q: int|
        0 <= p < q < after.len() ==> (#[trigger] after[p]).id != (#[trigger] after[q]).id
}

/// How one parameter update carries an old node snapshot to a new one:
/// volumes follow the update's linear amplitudes on the perceptual scale,
/// the mute flag follows the update, and everything absent stays.
pub open spec fn param_step(before: NodeState, after: NodeState, params: ParamUpdate) -> bool {
    &&& after.state_kept(before)
    &&& (match params.volumes {
        Some(lin) => {
            &&& after.volume@.len() == lin@.len()
            &&& forall|i: int|
                0 <= i < lin@.len() ==> (lin@[i] <= volume::cube(u32::MAX as int)
                    ==> volume::cube(#[trigger] after.volume@[i] as int) <= lin@[i]
                    < volume::cube(after.volume@[i] + 1)) && (lin@[i] > volume::cube(
                    u32::MAX as int,
                ) ==> after.volume@[i] == u32::MAX)
        },
        None => after.volume@ == before.volume@,
    })
    &&& (match params.mute {
        Some(m) => after.mute == m,
        None => after.mute == before.mute,
    })
}

impl NodeState {
    /// The descriptive fields `self` shares with `before`: everything a
    /// parameter update leaves alone.
    pub open spec fn state_kept(self, before: NodeState) -> bool {
        &&& self.id == before.id
        &&& self.name@ == before.name@
        &&& self.description@ == before.description@
        &&& self.route == before.route
    }
}

/// Records a route's parameter index: any earlier entry for the route gives
/// way, every other route keeps its index.
fn route_upsert(routes: &mut Vec<(u32, u32)>, route: u32, index: u32)
    ensures
        forall|q: u32|
            #[trigger] route_index(final(routes)@, q) == (if q == route {
                Some(index)
            } else {
                route_index(old(routes)@, q)
            }),
{
    let ghost orig = routes@;
    let mut position: Option<usize> = None;
    let mut k: usize = 0;
    while k < routes.len()
        invariant
            0 <= k <= routes@.len(),
            routes@ == orig,
            position is None,
            forall|m: int| 0 <= m < k ==> (#[trigger] orig[m]).0 != route,
        decreases routes@.len() - k,
    {
        if routes[k].0 == route {
            position = Some(k);
            break ;
        }
        k = k + 1;
    }
    let ghost mut trimmed = orig;
    match position {
        Some(at) => {
            let _ = routes.remove(at);
            proof {
                trimmed = orig.subrange(0, at as int) + orig.subrange(
                    at + 1 as int,
                    orig.len() as int,
                );
                assert(routes@ =~= trimmed);
                assert forall|q: u32| q != route implies #[trigger] route_index(trimmed, q)
                    == route_index(orig, q) by {
                    lemma_route_index_remove_first(orig, at as int, q);
                }
            }
        },
        None => {},
    }
    routes.insert(0, (route, index));
    proof {
        assert(routes@[0] == (route, index));
        assert(routes@.skip(1) =~= trimmed);
        assert forall|q: u32| true implies #[trigger] route_index(routes@, q) == (if q == route {
            Some(index)
        } else {
            route_index(orig, q)
        }) by {
            assert(route_index(routes@, q) == if q == route {
                Some(routes@[0].1)
            } else {
                route_index(routes@.skip(1), q)
            });
        }
    }
}

/// Removing one entry whose route differs from `q` leaves the index the
/// table assigns to `q` unchanged.
proof fn lemma_route_index_remove_first(routes: Seq<(u32, u32)>, k: int, q: u32)
    requires
        0 <= k < routes.len(),
        q != routes[k].0,
    ensures
        route_index(routes.subrange(0, k) + routes.subrange(k + 1, routes.len() as int), q)
            == route_index(routes, q),
    decreases k,
{
    let rest = routes.subrange(0, k) + routes.subrange(k + 1, routes.len() as int);
    if k == 0 {
        assert(rest =~= routes.skip(1));
    } else {
        assert(rest[0] == routes[0]);
        if routes[0].0 == q {
        } else {
            assert(rest.skip(1) =~= routes.skip(1).subrange(0, k - 1) + routes.skip(1).subrange(
                k,
                routes.skip(1).len() as int,
            ));
            lemma_route_index_remove_first(routes.skip(1), k - 1, q);
        }
    }
}


/// Unchanged node entries keep ids unique.
proof fn lemma_nodes_unique_transfer(a: Seq<NodeEntry>, b: Seq<NodeEntry>)
    requires
        forall|p: int, q: int|
            0 <= p < q < a.len() ==> (#[trigger] a[p]).id != (#[trigger] a[q]).id,
        b.len() == a.len(),
        forall|k: int| 0 <= k < a.len() ==> b[k] == a[k],
    ensures
        forall|p: int, q: int|
            0 <= p < q < b.len() ==> (#[trigger] b[p]).id != (#[trigger] b[q]).id,
{
    assert forall|p: int, q: int| 0 <= p < q < b.len() implies (#[trigger] b[p]).id != (
    #[trigger] b[q]).id by {
        assert(a[p].id != a[q].id);
    }
}

/// Unchanged device entries keep ids unique.
proof fn lemma_devices_unique_transfer(a: Seq<DeviceEntry>, b: Seq<DeviceEntry>)
    requires
        forall|p: int, q: int|
            0 <= p < q < a.len() ==> (#[trigger] a[p]).id != (#[trigger] a[q]).id,
        b.len() == a.len(),
        forall|k: int| 0 <= k < a.len() ==> b[k] == a[k],
    ensures
        forall|p: int, q: int|
            0 <= p < q < b.len() ==> (#[trigger] b[p]).id != (#[trigger] b[q]).id,
{
    assert forall|p: int, q: int| 0 <= p < q < b.len() implies (#[trigger] b[p]).id != (
    #[trigger] b[q]).id by {
        assert(a[p].id != a[q].id);
    }
}

/// Replacing the entry at `i` with one of the same id keeps ids unique.
proof fn lemma_set_keeps_unique_nodes(before: Seq<NodeEntry>, after: Seq<NodeEntry>, i: int)
    requires
        0 <= i < before.len(),
        after.len() == before.len(),
        forall|k: int| 0 <= k < before.len() && k != i ==> after[k] == before[k],
        after[i].id == before[i].id,
        forall|p: int, q: int|
            0 <= p < q < before.len() ==> (#[trigger] before[p]).id != (#[trigger] before[q]).id,
    ensures
        forall|p: int, q: int|
            0 <= p < q < after.len() ==> (#[trigger] after[p]).id != (#[trigger] after[q]).id,
{
    assert forall|p: int, q: int| 0 <= p < q < after.len() implies (#[trigger] after[p]).id != (
    #[trigger] after[q]).id by {
        assert(before[p].id != before[q].id);
        assert(after[p].id == before[p].id);
        assert(after[q].id == before[q].id);
    }
}

/// Replacing the entry at `j` with one of the same id keeps ids unique.
proof fn lemma_set_keeps_unique_devices(before: Seq<DeviceEntry>, after: Seq<DeviceEntry>, j: int)
    requires
        0 <= j < before.len(),
        after.len() == before.len(),
        forall|k: int| 0 <= k < before.len() && k != j ==> after[k] == before[k],
        after[j].id == before[j].id,
        forall|p: int, q: int|
            0 <= p < q < before.len() ==> (#[trigger] before[p]).id != (#[trigger] before[q]).id,
    ensures
        forall|p: int, q: int|
            0 <= p < q < after.len() ==> (#[trigger] after[p]).id != (#[trigger] after[q]).id,
{
    assert forall|p: int, q: int| 0 <= p < q < after.len() implies (#[trigger] after[p]).id != (
    #[trigger] after[q]).id by {
        assert(before[p].id != before[q].id);
        assert(after[p].id == before[p].id);
        assert(after[q].id == before[q].id);
    }
}

impl NodeTracker {
    /// Encodes a set command for the node with display name `name`: the
    /// first match in current collection order.  A node routed through a
    /// device yields the route object, a node with direct parameters the
    /// bare property object; anything missing on the way is an error, which
    /// the worker logs and drops.
    pub fn encode_set(&self, name: &str, prop: CommandProp) -> (r: Result<
        EncodedCommand,
        SetError,
    >)
        ensures
            encodes(self.nodes_view(), self.devices_view(), name@, prop, r),
    {
        let mut i: usize = 0;
        while i < self.nodes.len()
            invariant
                0 <= i <= self.nodes@.len(),
                forall|k: int| 0 <= k < i ==> (#[trigger] self.nodes@[k]).state.name@ != name@,
            decreases self.nodes@.len() - i,
        {
            if text::str_eq(self.nodes[i].state.name.as_str(), name) {
                proof {
                    assert(first_name_match(self.nodes_view(), name@, i as int));
                }
                match self.nodes[i].device {
                    None => {
                        return Ok(EncodedCommand::Direct { node: self.nodes[i].id, prop });
                    },
                    Some(d) => {
                        let route = match self.nodes[i].state.route {
                            Some(route) => route,
                            None => {
                                return Err(SetError::NoRoute);
                            },
                        };
                        match self.device_position(d) {
                            None => {
                                return Err(SetError::DeviceNotTracked);
                            },
                            Some(j) => {
                                proof {
                                    assert(device_at(self.devices_view(), d, j as int));
                                }
                                match route_lookup(&self.devices[j].routes, route) {
                                    None => {
                                        return Err(SetError::NoRouteIndex);
                                    },
                                    Some(index) => {
                                        return Ok(
                                            EncodedCommand::Routed {
                                                device: d,
                                                route,
                                                index,
                                                prop,
                                                persist: true,
                                            },
                                        );
                                    },
                                }
                            },
                        }
                    },
                }
            }
            i = i + 1;
        }
        Err(SetError::NotTracked)
    }

    /// Encodes a mute command for the node named `name`.
    pub fn set_mute(&self, name: &str, mute: bool) -> (r: Result<EncodedCommand, SetError>)
        ensures
            encodes(
                self.nodes_view(),
                self.devices_view(),
                name@,
                CommandProp::MuteFlag(mute),
                r,
            ),
    {
        self.encode_set(name, CommandProp::MuteFlag(mute))
    }

    /// Encodes a volume command for the node named `name`: each requested
    /// perceptual value is clamped to the non-negative range and cubed back
    /// to the linear amplitude the wire expects.
    pub fn set_volume(&self, name: &str, requested: &Vec<i64>) -> (r: Result<
        EncodedCommand,
        SetError,
    >)
        ensures
            exists|w: Vec<u128>|
                (#[trigger] w@) == volume::wire_volumes(requested@) && encodes(
                    self.nodes_view(),
                    self.devices_view(),
                    name@,
                    CommandProp::ChannelVolumes(w),
                    r,
                ),
    {
        let mut wire: Vec<u128> = Vec::new();
        let mut i: usize = 0;
        while i < requested.len()
            invariant
                0 <= i <= requested@.len(),
                wire@ == volume::wire_volumes(requested@.subrange(0, i as int)),
            decreases requested@.len() - i,
        {
            let p = volume::clamp_volume(requested[i]);
            proof {
                volume::lemma_cube_fits(volume::clamped(requested@[i as int] as int));
            }
            wire.push(volume::volume_to_linear(p));
            proof {
                assert(wire@ =~= volume::wire_volumes(requested@.subrange(0, i + 1 as int)));
            }
            i = i + 1;
        }
        proof {
            assert(requested@.subrange(0, requested@.len() as int) =~= requested@);
        }
        let ghost w = wire;
        let r = self.encode_set(name, CommandProp::ChannelVolumes(wire));
        proof {
            assert(w@ == volume::wire_volumes(requested@) && encodes(
                self.nodes_view(),
                self.devices_view(),
                name@,
                CommandProp::ChannelVolumes(w),
                r,
            ));
        }
        r
    }
}

/// Looks a route's parameter index up in a device's table.
fn route_lookup(routes: &Vec<(u32, u32)>, route: u32) -> (r: Option<u32>)
    ensures
        r == route_index(routes@, route),
{
    let mut k: usize = 0;
    proof {
        assert(routes@.skip(0) =~= routes@);
    }
    while k < routes.len()
        invariant
            0 <= k <= routes@.len(),
            route_index(routes@, route) == route_index(routes@.skip(k as int), route),
        decreases routes@.len() - k,
    {
        proof {
            assert(routes@.skip(k as int)[0] == routes@[k as int]);
            assert(routes@.skip(k as int).skip(1) =~= routes@.skip(k + 1 as int));
        }
        if routes[k].0 == route {
            return Some(routes[k].1);
        }
        k = k + 1;
    }
    None
}

/// The first positions bearing one name are one position: what the encoding
/// speaks of through an existential is unique.
pub proof fn lemma_first_name_match_unique(nodes: Seq<NodeEntry>, name: Seq<char>, i: int, j: int)
    requires
        first_name_match(nodes, name, i),
        first_name_match(nodes, name, j),
    ensures
        i == j,
{
}

/// Route command encoding.  For a node bound to a device with a known route
/// whose index is in the device's table, a command is encoded as the route
/// object carrying exactly that device, that route, that index, the property
/// object, and the persist flag set; for a node with no device, the same
/// command is encoded as the bare property object addressed to the node,
/// with no route wrapper.
pub proof fn lemma_route_command_encoding(
    nodes: Seq<NodeEntry>,
    devices: Seq<DeviceEntry>,
    name: Seq<char>,
    prop: CommandProp,
    r: Result<EncodedCommand, SetError>,
    i: int,
)
    requires
        encodes(nodes, devices, name, prop, r),
        first_name_match(nodes, name, i),
    ensures
        nodes[i].device is None ==> r == Result::<EncodedCommand, SetError>::Ok(
            EncodedCommand::Direct { node: nodes[i].id, prop },
        ),
        match (nodes[i].device, nodes[i].state.route) {
            (Some(d), Some(route)) => forall|j: int|
                #[trigger] device_at(devices, d, j) && route_index(
                    devices[j].routes@,
                    route,
                ) is Some ==> r == Result::<EncodedCommand, SetError>::Ok(
                    EncodedCommand::Routed {
                        device: d,
                        route,
                        index: route_index(devices[j].routes@, route)->Some_0,
                        prop,
                        persist: true,
                    },
                ),
            _ => true,
        },
{
    let w = choose|w: int| #[trigger] first_name_match(nodes, name, w) && encode_branch(
        nodes,
        devices,
        name,
        prop,
        r,
        w,
    );
    assert(exists|w: int| #[trigger] first_name_match(nodes, name, w) && encode_branch(
        nodes,
        devices,
        name,
        prop,
        r,
        w,
    )) by {
        assert(nodes[i].state.name@ == name);
        if forall|k: int| 0 <= k < nodes.len() ==> (#[trigger] nodes[k]).state.name@ != name {
            assert(nodes[i].state.name@ != name);
        }
    }
    lemma_first_name_match_unique(nodes, name, i, w);
    match nodes[i].device {
        None => {},
        Some(d) => {
            match nodes[i].state.route {
                None => {},
                Some(route) => {
                    assert forall|j: int|
                        #[trigger] device_at(devices, d, j) && route_index(
                            devices[j].routes@,
                            route,
                        ) is Some implies r == Result::<EncodedCommand, SetError>::Ok(
                        EncodedCommand::Routed {
                            device: d,
                            route,
                            index: route_index(devices[j].routes@, route)->Some_0,
                            prop,
                            persist: true,
                        },
                    ) by {
                        assert(!(forall|k: int|
                            0 <= k < devices.len() ==> (#[trigger] devices[k]).id != d)) by {
                            assert(devices[j].id == d);
                        }
                        let v = choose|v: int| #[trigger] device_at(devices, d, v) && (
                        match route_index(devices[v].routes@, route) {
                            None => r == Result::<EncodedCommand, SetError>::Err(
                                SetError::NoRouteIndex,
                            ),
                            Some(index) => r == Result::<EncodedCommand, SetError>::Ok(
                                EncodedCommand::Routed {
                                    device: d,
                                    route,
                                    index,
                                    prop,
                                    persist: true,
                                },
                            ),
                        });
                        assert(v == j);
                    }
                },
            }
        },
    }
}

/// The branch of [`encodes`] taken once the first matching node is fixed.
pub open spec fn encode_branch(
    nodes: Seq<NodeEntry>,
    devices: Seq<DeviceEntry>,
    name: Seq<char>,
    prop: CommandProp,
    r: Result<EncodedCommand, SetError>,
    i: int,
) -> bool {
    match nodes[i].device {
        None => r == Result::<EncodedCommand, SetError>::Ok(
            EncodedCommand::Direct { node: nodes[i].id, prop },
        ),
        Some(d) => match nodes[i].state.route {
            None => r == Result::<EncodedCommand, SetError>::Err(SetError::NoRoute),
            Some(route) => if forall|k: int|
                0 <= k < devices.len() ==> (#[trigger] devices[k]).id != d {
                r == Result::<EncodedCommand, SetError>::Err(SetError::DeviceNotTracked)
            } else {
                exists|j: int|
                    #[trigger] device_at(devices, d, j) && (match route_index(
                        devices[j].routes@,
                        route,
                    ) {
                        None => r == Result::<EncodedCommand, SetError>::Err(
                            SetError::NoRouteIndex,
                        ),
                        Some(index) => r == Result::<EncodedCommand, SetError>::Ok(
                            EncodedCommand::Routed { device: d, route, index, prop, persist: true },
                        ),
                    })
            },
        },
    }
}

} // verus!
