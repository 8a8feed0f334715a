//! The normalized result of a fetch, and the builder that accumulates it.

use vstd::prelude::*;
use vstd::string::*;

verus! {

/// A network device of the instance: its name and the addresses given to it.
#[derive(Debug, Clone, PartialEq, Eq)]
pub struct NetworkDevice {
    pub name: String,
    pub addresses: Vec<String>,
}

/// A `NetworkDevice` with its texts as sequences of characters.
pub struct NetworkDeviceView {
    pub name: Seq<char>,
    pub addresses: Seq<Seq<char>>,
}

impl DeepView for NetworkDevice {
    type V = NetworkDeviceView;

    open spec fn deep_view(&self) -> NetworkDeviceView {
        NetworkDeviceView { name: self.name@, addresses: self.addresses.deep_view() }
    }
}

/// Attributes in the order in which their names first came.
pub type Attributes = Seq<(Seq<char>, Seq<char>)>;

/// No name occurs twice.
pub open spec fn names_distinct(attrs: Attributes) -> bool {
    forall|i: int, j: int| 0 <= i < j < attrs.len() ==> (#[trigger] attrs[i]).0 != (
    #[trigger] attrs[j]).0
}

/// Whether `i` is a place at which `attrs` holds `name`.
pub open spec fn holds_at(attrs: Attributes, name: Seq<char>, i: int) -> bool {
    0 <= i < attrs.len() && attrs[i].0 == name
}

/// Whether `attrs` holds an attribute called `name`.
pub open spec fn has_name(attrs: Attributes, name: Seq<char>) -> bool {
    exists|i: int| holds_at(attrs, name, i)
}

/// A place at which `attrs` holds `name`, where there is one.
pub open spec fn position(attrs: Attributes, name: Seq<char>) -> int {
    choose|i: int| holds_at(attrs, name, i)
}

/// `attrs` with `name` set to `value`: in its old place where `attrs` holds
/// the name, at the end where it does not.
pub open spec fn put(attrs: Attributes, name: Seq<char>, value: Seq<char>) -> Attributes {
    if has_name(attrs, name) {
        attrs.update(position(attrs, name), (name, value))
    } else {
        attrs.push((name, value))
    }
}

/// The attributes as a mapping from name to value.
pub open spec fn as_map(attrs: Attributes) -> Map<Seq<char>, Seq<char>> {
    Map::new(|name: Seq<char>| has_name(attrs, name), |name: Seq<char>| attrs[position(attrs, name)].1)
}

/// What a `Metadata`, or a builder on its way to one, holds.
pub struct MetadataView {
    pub hostname: Option<Seq<char>>,
    pub attributes: Attributes,
    pub ssh_keys: Seq<Seq<char>>,
    pub network_devices: Seq<NetworkDeviceView>,
}

impl MetadataView {
    /// Nothing known yet.
    pub open spec fn empty() -> MetadataView {
        MetadataView {
            hostname: None,
            attributes: Seq::empty(),
            ssh_keys: Seq::empty(),
            network_devices: Seq::empty(),
        }
    }

    /// The state after `add_attribute_if_exists(name, value)`.
    pub open spec fn with_attribute(self, name: Seq<char>, value: Option<Seq<char>>) -> MetadataView {
        match value {
            Some(v) => MetadataView { attributes: put(self.attributes, name, v), ..self },
            None => self,
        }
    }

    /// The state after `set_hostname_if_exists(value)`.
    pub open spec fn with_hostname(self, value: Option<Seq<char>>) -> MetadataView {
        match value {
            Some(v) => MetadataView { hostname: Some(v), ..self },
            None => self,
        }
    }

    /// The state after `add_ssh_keys(keys)`.
    pub open spec fn with_ssh_keys(self, keys: Seq<Seq<char>>) -> MetadataView {
        MetadataView { ssh_keys: self.ssh_keys + keys, ..self }
    }

    /// The state after `add_network_devices(devices)`.
    pub open spec fn with_network_devices(self, devices: Seq<NetworkDeviceView>) -> MetadataView {
        MetadataView { network_devices: self.network_devices + devices, ..self }
    }

    /// The attributes as a mapping from name to value.
    pub open spec fn attribute_map(self) -> Map<Seq<char>, Seq<char>> {
        as_map(self.attributes)
    }
}

/// Where no name occurs twice, a name has one place only.
pub proof fn lemma_position_unique(attrs: Attributes, name: Seq<char>, i: int)
    requires
        names_distinct(attrs),
        holds_at(attrs, name, i),
    ensures
        has_name(attrs, name),
        position(attrs, name) == i,
{
    let p = position(attrs, name);
    assert(holds_at(attrs, name, p));
    if p < i {
        assert(attrs[p].0 != attrs[i].0);
    } else if i < p {
        assert(attrs[i].0 != attrs[p].0);
    }
}

/// Setting an attribute adds its name and no other, and takes none away.
pub proof fn lemma_put_names(attrs: Attributes, name: Seq<char>, value: Seq<char>, other: Seq<char>)
    ensures
        has_name(put(attrs, name, value), other) == (has_name(attrs, other) || other == name),
{
    let after = put(attrs, name, value);
    if has_name(attrs, name) {
        let p = position(attrs, name);
        assert(holds_at(attrs, name, p));
        assert(holds_at(after, name, p));
        if has_name(after, other) {
            let i = position(after, other);
            assert(holds_at(after, other, i));
            assert(holds_at(attrs, other, i));
        }
        if has_name(attrs, other) {
            let i = position(attrs, other);
            assert(holds_at(attrs, other, i));
            assert(holds_at(after, other, i));
        }
    } else {
        assert(holds_at(after, name, attrs.len() as int));
        if has_name(after, other) && other != name {
            let i = position(after, other);
            assert(holds_at(after, other, i));
            assert(holds_at(attrs, other, i));
        }
        if has_name(attrs, other) {
            let i = position(attrs, other);
            assert(holds_at(attrs, other, i));
            assert(holds_at(after, other, i));
        }
    }
}

/// Setting an attribute keeps the names distinct, and changes the mapping at
/// that name only: it is the old mapping with `name` bound to `value`.
pub proof fn lemma_put(attrs: Attributes, name: Seq<char>, value: Seq<char>)
    requires
        names_distinct(attrs),
    ensures
        names_distinct(put(attrs, name, value)),
        as_map(put(attrs, name, value)) == as_map(attrs).insert(name, value),
        as_map(put(attrs, name, value))[name] == value,
{
    let after = put(attrs, name, value);
    if has_name(attrs, name) {
        let p = position(attrs, name);
        assert(holds_at(attrs, name, p));
        assert forall|i: int, j: int| 0 <= i < j < after.len() implies (#[trigger] after[i]).0 != (
        #[trigger] after[j]).0 by {
            assert(after[i].0 == attrs[i].0);
            assert(after[j].0 == attrs[j].0);
        }
        assert forall|k: Seq<char>| has_name(after, k) == has_name(attrs, k) by {
            if has_name(after, k) {
                let i = position(after, k);
                assert(holds_at(after, k, i));
                assert(holds_at(attrs, k, i));
            }
            if has_name(attrs, k) {
                let i = position(attrs, k);
                assert(holds_at(attrs, k, i));
                assert(holds_at(after, k, i));
            }
        }
        assert forall|k: Seq<char>| has_name(after, k) implies #[trigger] as_map(after)[k]
            == as_map(attrs).insert(name, value)[k] by {
            let i = position(attrs, k);
            assert(holds_at(attrs, k, i));
            assert(holds_at(after, k, i));
            lemma_position_unique(after, k, i);
            if k == name {
                lemma_position_unique(attrs, k, p);
            }
        }
    } else {
        assert forall|i: int, j: int| 0 <= i < j < after.len() implies (#[trigger] after[i]).0 != (
        #[trigger] after[j]).0 by {
            if j == attrs.len() {
                assert(!holds_at(attrs, name, i));
            }
        }
        assert(holds_at(after, name, attrs.len() as int));
        assert forall|k: Seq<char>| has_name(after, k) == (has_name(attrs, k) || k == name) by {
            if has_name(after, k) && k != name {
                let i = position(after, k);
                assert(holds_at(after, k, i));
                assert(holds_at(attrs, k, i));
            }
            if has_name(attrs, k) {
                let i = position(attrs, k);
                assert(holds_at(attrs, k, i));
                assert(holds_at(after, k, i));
            }
        }
        assert forall|k: Seq<char>| has_name(after, k) implies #[trigger] as_map(after)[k]
            == as_map(attrs).insert(name, value)[k] by {
            if k == name {
                lemma_position_unique(after, k, attrs.len() as int);
            } else {
                let i = position(attrs, k);
                assert(holds_at(attrs, k, i));
                assert(holds_at(after, k, i));
                lemma_position_unique(after, k, i);
            }
        }
    }
    assert(as_map(after).dom() =~= as_map(attrs).insert(name, value).dom());
    assert(as_map(after) =~= as_map(attrs).insert(name, value));
}

/// Adding an attribute without a value changes nothing; adding one with a
/// value binds the name to it and leaves every other name as it was.
pub proof fn lemma_add_attribute(m: MetadataView, name: Seq<char>, value: Seq<char>)
    requires
        names_distinct(m.attributes),
    ensures
        m.with_attribute(name, None) == m,
        names_distinct(m.with_attribute(name, Some(value)).attributes),
        m.with_attribute(name, Some(value)).attribute_map() == m.attribute_map().insert(
            name,
            value,
        ),
        m.with_attribute(name, Some(value)).attribute_map()[name] == value,
        m.with_attribute(name, Some(value)).hostname == m.hostname,
        m.with_attribute(name, Some(value)).ssh_keys == m.ssh_keys,
        m.with_attribute(name, Some(value)).network_devices == m.network_devices,
{
    lemma_put(m.attributes, name, value);
}

/// The provider-independent description of an instance. It is made by a
/// `MetadataBuilder` and does not change afterwards.
#[derive(Debug, PartialEq, Eq)]
pub struct Metadata {
    hostname: Option<String>,
    attributes: Vec<(String, String)>,
    ssh_keys: Vec<String>,
    network_devices: Vec<NetworkDevice>,
}

/// Accumulates what a fetch finds, piece by piece.
#[derive(Debug, PartialEq, Eq)]
pub struct MetadataBuilder {
    hostname: Option<String>,
    attributes: Vec<(String, String)>,
    ssh_keys: Vec<String>,
    network_devices: Vec<NetworkDevice>,
}

impl View for Metadata {
    type V = MetadataView;

    closed spec fn view(&self) -> MetadataView {
        MetadataView {
            hostname: self.hostname.deep_view(),
            attributes: self.attributes.deep_view(),
            ssh_keys: self.ssh_keys.deep_view(),
            network_devices: self.network_devices.deep_view(),
        }
    }
}

impl View for MetadataBuilder {
    type V = MetadataView;

    closed spec fn view(&self) -> MetadataView {
        MetadataView {
            hostname: self.hostname.deep_view(),
            attributes: self.attributes.deep_view(),
            ssh_keys: self.ssh_keys.deep_view(),
            network_devices: self.network_devices.deep_view(),
        }
    }
}

impl Metadata {
    #[verifier::type_invariant]
    spec fn inv(&self) -> bool {
        names_distinct(self.attributes.deep_view())
    }

    /// A builder that holds nothing yet.
    pub fn builder() -> (r: MetadataBuilder)
        ensures
            r@ == MetadataView::empty(),
    {
        let r = MetadataBuilder {
            hostname: None,
            attributes: Vec::new(),
            ssh_keys: Vec::new(),
            network_devices: Vec::new(),
        };
        assert(r@.attributes =~= Seq::empty());
        assert(r@.ssh_keys =~= Seq::empty());
        assert(r@.network_devices =~= Seq::empty());
        r
    }

    /// The hostname, where the provider gave one.
    pub fn hostname(&self) -> (r: &Option<String>)
        ensures
            r.deep_view() == self@.hostname,
    {
        &self.hostname
    }

    /// The attributes, each name once, in the order in which the names came.
    pub fn attributes(&self) -> (r: &Vec<(String, String)>)
        ensures
            r.deep_view() == self@.attributes,
            names_distinct(self@.attributes),
    {
        proof {
            use_type_invariant(self);
        }
        &self.attributes
    }

    /// The value of the attribute `name`, where there is one.
    pub fn attribute(&self, name: &str) -> (r: Option<String>)
        ensures
            names_distinct(self@.attributes),
            r is Some == self@.attribute_map().contains_key(name@),
            r matches Some(v) ==> v@ == self@.attribute_map()[name@],
    {
        proof {
            use_type_invariant(self);
        }
        let wanted = String::from_str(name);
        let n: usize = self.attributes.len();
        let mut i: usize = 0;
        while i < n
            invariant
                i <= n,
                n == self.attributes.len(),
                wanted@ == name@,
                names_distinct(self@.attributes),
                forall|k: int| 0 <= k < i ==> !holds_at(self@.attributes, name@, k),
            decreases n - i,
        {
            if self.attributes[i].0 == wanted {
                proof {
                    assert(holds_at(self@.attributes, name@, i as int));
                    lemma_position_unique(self@.attributes, name@, i as int);
                }
                return Some(self.attributes[i].1.clone());
            }
            i += 1;
        }
        assert(!has_name(self@.attributes, name@));
        None
    }

    /// The SSH public keys, in the order in which they were added.
    pub fn ssh_keys(&self) -> (r: &Vec<String>)
        ensures
            r.deep_view() == self@.ssh_keys,
    {
        &self.ssh_keys
    }

    /// The network devices, in the order in which they were added.
    pub fn network_devices(&self) -> (r: &Vec<NetworkDevice>)
        ensures
            r.deep_view() == self@.network_devices,
    {
        &self.network_devices
    }
}

impl MetadataBuilder {
    #[verifier::type_invariant]
    spec fn inv(&self) -> bool {
        names_distinct(self.attributes.deep_view())
    }

    /// Binds `name` to the value, where there is one: in the place of an
    /// earlier value of that name, or else after the attributes held so far.
    /// Without a value nothing changes.
    pub fn add_attribute_if_exists(self, name: String, value: Option<String>) -> (r: Self)
        ensures
            r@ == self@.with_attribute(name@, value.deep_view()),
            value is None ==> r@ == self@,
            value matches Some(v) ==> r@.attribute_map() == self@.attribute_map().insert(
                name@,
                v@,
            ),
            names_distinct(r@.attributes),
    {
        proof {
            use_type_invariant(&self);
        }
        match value {
            None => self,
            Some(v) => {
                let ghost before = self@.attributes;
                let MetadataBuilder { hostname, mut attributes, ssh_keys, network_devices } = self;
                let n: usize = attributes.len();
                let mut i: usize = 0;
                while i < n && !(attributes[i].0 == name)
                    invariant
                        i <= n,
                        n == attributes.len(),
                        attributes.deep_view() == before,
                        forall|k: int| 0 <= k < i ==> !holds_at(before, name@, k),
                    decreases n - i,
                {
                    i += 1;
                }
                proof {
                    lemma_put(before, name@, v@);
                    if i < n {
                        assert(holds_at(before, name@, i as int));
                        lemma_position_unique(before, name@, i as int);
                    } else {
                        assert(!has_name(before, name@));
                    }
                }
                let ghost pair = (name@, v@);
                if i < n {
                    attributes.set(i, (name, v));
                    assert(attributes.deep_view() =~= before.update(i as int, pair));
                } else {
                    attributes.push((name, v));
                    assert(attributes.deep_view() =~= before.push(pair));
                }
                MetadataBuilder { hostname, attributes, ssh_keys, network_devices }
            },
        }
    }

    /// Sets the hostname, where there is a value; without one the hostname
    /// stays as it was.
    pub fn set_hostname_if_exists(self, value: Option<String>) -> (r: Self)
        ensures
            r@ == self@.with_hostname(value.deep_view()),
    {
        proof {
            use_type_invariant(&self);
        }
        match value {
            None => self,
            Some(v) => {
                let MetadataBuilder { hostname, attributes, ssh_keys, network_devices } = self;
                MetadataBuilder { hostname: Some(v), attributes, ssh_keys, network_devices }
            },
        }
    }

    /// Appends `keys`, in their order, to the SSH keys held so far.
    pub fn add_ssh_keys(self, keys: Vec<String>) -> (r: Self)
        ensures
            r@ == self@.with_ssh_keys(keys.deep_view()),
    {
        proof {
            use_type_invariant(&self);
        }
        let ghost before = self@.ssh_keys;
        let ghost added = keys.deep_view();
        let MetadataBuilder { hostname, attributes, mut ssh_keys, network_devices } = self;
        let mut keys = keys;
        ssh_keys.append(&mut keys);
        assert(ssh_keys.deep_view() =~= before + added);
        MetadataBuilder { hostname, attributes, ssh_keys, network_devices }
    }

    /// Appends `devices`, in their order, to the network devices held so far.
    pub fn add_network_devices(self, devices: Vec<NetworkDevice>) -> (r: Self)
        ensures
            r@ == self@.with_network_devices(devices.deep_view()),
    {
        proof {
            use_type_invariant(&self);
        }
        let ghost before = self@.network_devices;
        let ghost added = devices.deep_view();
        let MetadataBuilder { hostname, attributes, ssh_keys, mut network_devices } = self;
        let mut devices = devices;
        network_devices.append(&mut devices);
        assert(network_devices.deep_view() =~= before + added);
        MetadataBuilder { hostname, attributes, ssh_keys, network_devices }
    }

    /// The finished `Metadata`: all that was accumulated, and nothing else.
    pub fn build(self) -> (r: Metadata)
        ensures
            r@ == self@,
            names_distinct(r@.attributes),
    {
        proof {
            use_type_invariant(&self);
        }
        let MetadataBuilder { hostname, attributes, ssh_keys, network_devices } = self;
        Metadata { hostname, attributes, ssh_keys, network_devices }
    }
}

} // verus!
