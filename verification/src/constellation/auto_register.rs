//! Registering the nodes that a manifest lists.
//!
//! The caller reads the manifest, now and then. Each time, every entry that
//! is switched on and whose address the registry does not know is registered
//! as if it had asked for it. Nothing is ever taken away.

use vstd::prelude::*;
use vstd::string::*;
use crate::chunk::copy_strings;
use crate::clock::now_millis;
use crate::constellation::models::NodeInfo;
use crate::constellation::registry_keys::{free_id, keys_of};
use crate::constellation::state::{node_registered, ConstellationState};
use crate::ids::fresh_uuid;
use crate::models::{NodeCapabilities, NodeRegistration};
use crate::text::{push_text, same_text, texts};

verus! {

/// A manifest of nodes.
#[derive(Debug, Clone, PartialEq, Eq)]
pub struct NodesConfig {
    pub constellation: ConstellationSettings,
    pub nodes: Vec<NodeConfig>,
}

/// What the manifest says of the constellation.
#[derive(Debug, Clone, PartialEq, Eq)]
pub struct ConstellationSettings {
    pub url: String,
    /// Whether the entries are to be registered at all.
    pub auto_register: bool,
    pub heartbeat_interval: u64,
    /// Seconds between two readings of the manifest.
    pub registration_interval: u64,
}

/// One entry of the manifest.
#[derive(Debug, Clone, PartialEq, Eq)]
pub struct NodeConfig {
    pub name: String,
    /// The node's address: host and port.
    pub address: String,
    /// Whether the entry is switched on.
    pub enabled: bool,
    pub capabilities: NodeCapabilities,
    /// Free-form labels, as key and value.
    pub tags: Vec<(String, String)>,
}

impl Default for ConstellationSettings {
    /// The constellation on this machine; registration switched on;
    /// heartbeats every half minute, the manifest read every minute.
    fn default() -> (settings: ConstellationSettings)
        ensures
            settings.url@ == "http://localhost:3030"@,
            settings.auto_register,
            settings.heartbeat_interval == 30,
            settings.registration_interval == 60,
    {
        ConstellationSettings {
            url: String::from_str("http://localhost:3030"),
            auto_register: true,
            heartbeat_interval: 30,
            registration_interval: 60,
        }
    }
}

/// What is known of the manifest's nodes: which addresses were registered,
/// and under which identifier.
#[derive(Debug, Clone, PartialEq, Eq)]
pub struct AutoRegister {
    pub registered_nodes: Vec<(String, u128)>,
}

/// Whether `address` is among the addresses that were registered.
pub open spec fn remembered(registered: Seq<(String, u128)>, address: Seq<char>) -> bool {
    exists|i: int| 0 <= i < registered.len() && (#[trigger] registered[i]).0@ == address
}

/// Whether a node with the address `address` is in the registry.
pub open spec fn has_address(nodes: Map<u128, NodeInfo>, address: Seq<char>) -> bool {
    exists|id: u128| #[trigger] nodes.contains_key(id) && nodes[id].address@ == address
}

/// Whether a node with the address `address` is known: remembered as
/// registered, or in the registry.
pub open spec fn is_known(
    registered: Seq<(String, u128)>,
    nodes: Map<u128, NodeInfo>,
    address: Seq<char>,
) -> bool {
    remembered(registered, address) || has_address(nodes, address)
}

/// What is known stays known while nothing is forgotten and no node is
/// changed.
pub proof fn lemma_known_stays(
    registered: Seq<(String, u128)>,
    nodes: Map<u128, NodeInfo>,
    later_registered: Seq<(String, u128)>,
    later_nodes: Map<u128, NodeInfo>,
    address: Seq<char>,
)
    requires
        is_known(registered, nodes, address),
        registered.len() <= later_registered.len(),
        forall|k: int| 0 <= k < registered.len() ==> later_registered[k] == registered[k],
        forall|id: u128| #[trigger]
            nodes.contains_key(id) ==> later_nodes.contains_key(id) && later_nodes[id]
                == nodes[id],
    ensures
        is_known(later_registered, later_nodes, address),
{
    if remembered(registered, address) {
        let i = choose|i: int| 0 <= i < registered.len() && (#[trigger] registered[i]).0@ == address;
        assert(later_registered[i].0@ == address);
    } else {
        let id = choose|id: u128| #[trigger] nodes.contains_key(id) && nodes[id].address@ == address;
        assert(later_nodes.contains_key(id) && later_nodes[id].address@ == address);
    }
}

/// The entries `entries` with those passed over whose address is no socket
/// address: such an entry counts as switched off. `address_ok` says of each
/// entry, by position, whether its address is one; an entry of which it
/// says nothing is passed over too.
pub open spec fn passed_over(entries: Seq<NodeConfig>, address_ok: Seq<bool>) -> Seq<NodeConfig> {
    Seq::new(
        entries.len(),
        |i: int|
            NodeConfig {
                enabled: entries[i].enabled && i < address_ok.len() && address_ok[i],
                ..entries[i]
            },
    )
}

/// Passes over the entries of a manifest whose address is no socket
/// address: the manifest that comes out has them switched off, and is
/// otherwise the one that went in.
pub fn pass_over_bad_addresses(config: NodesConfig, address_ok: &Vec<bool>) -> (out: NodesConfig)
    ensures
        out.constellation == config.constellation,
        out.nodes@ == passed_over(config.nodes@, address_ok@),
{
    let ghost all = config.nodes@;
    let ghost target = passed_over(all, address_ok@);
    let n = config.nodes.len();
    let mut rest = config.nodes;
    let mut stack: Vec<NodeConfig> = Vec::new();
    while rest.len() > 0
        invariant
            n == all.len(),
            target == passed_over(all, address_ok@),
            rest@.len() <= n,
            rest@ == all.subrange(0, rest@.len() as int),
            stack@.len() == n - rest@.len(),
            forall|k: int| 0 <= k < stack@.len() ==> #[trigger] stack@[k] == target[n - 1 - k],
        decreases rest@.len(),
    {
        let ghost m = rest@.len() as int;
        let i = rest.len() - 1;
        let mut entry = rest.pop().unwrap();
        proof {
            assert(entry == all[m - 1]);
            assert(rest@ =~= all.subrange(0, m - 1));
        }
        let ok = i < address_ok.len() && address_ok[i];
        entry.enabled = entry.enabled && ok;
        stack.push(entry);
    }
    let mut nodes: Vec<NodeConfig> = Vec::new();
    let ghost turned = stack@;
    while stack.len() > 0
        invariant
            n == target.len(),
            turned.len() == n,
            forall|k: int| 0 <= k < n ==> #[trigger] turned[k] == target[n - 1 - k],
            stack@ == turned.subrange(0, stack@.len() as int),
            stack@.len() <= n,
            nodes@.len() == n - stack@.len(),
            forall|k: int| 0 <= k < nodes@.len() ==> #[trigger] nodes@[k] == target[k],
        decreases stack@.len(),
    {
        let ghost m = stack@.len() as int;
        let entry = stack.pop().unwrap();
        proof {
            assert(entry == turned[m - 1]);
            assert(stack@ =~= turned.subrange(0, m - 1));
        }
        nodes.push(entry);
    }
    proof {
        assert(nodes@ =~= target);
    }
    NodesConfig { constellation: config.constellation, nodes }
}

/// Whether `id` is the identifier of one of the entries of `registered`
/// from position `from` on.
pub open spec fn listed_since(registered: Seq<(String, u128)>, from: int, id: u128) -> bool {
    exists|k: int| from <= k < registered.len() && (#[trigger] registered[k]).1 == id
}

/// Whether the node of `entry` is to be registered now: the entry is
/// switched on, and its address is neither remembered nor in the registry.
pub open spec fn is_due(
    entry: NodeConfig,
    registered: Seq<(String, u128)>,
    nodes: Map<u128, NodeInfo>,
) -> bool {
    entry.enabled && !remembered(registered, entry.address@) && !has_address(
        nodes,
        entry.address@,
    )
}

/// Whether two records of what a node can do say the same.
pub open spec fn capabilities_match(a: NodeCapabilities, b: NodeCapabilities) -> bool {
    &&& a.max_concurrent_chunks == b.max_concurrent_chunks
    &&& a.cpu_cores == b.cpu_cores
    &&& a.memory_gb == b.memory_gb
    &&& texts(a.supported_encoders@) == texts(b.supported_encoders@)
}

/// Whether `entry`, an address with an identifier, stands for a node that
/// was registered from the manifest `entries`: the address is that of an
/// entry that is switched on, the identifier was free before, and the
/// registry now holds under it a node that is online, with that address and
/// the capabilities that the entry declares.
pub open spec fn newly_registered(
    entry: (String, u128),
    entries: Seq<NodeConfig>,
    before: Map<u128, NodeInfo>,
    after: Map<u128, NodeInfo>,
) -> bool {
    &&& exists|i: int|
        0 <= i < entries.len() && (#[trigger] entries[i]).enabled && entries[i].address@
            == entry.0@ && capabilities_match(after[entry.1].capabilities, entries[i].capabilities)
    &&& !before.contains_key(entry.1)
    &&& after.contains_key(entry.1)
    &&& after[entry.1].id == entry.1
    &&& after[entry.1].address@ == entry.0@
    &&& after[entry.1].status == crate::constellation::models::NodeStatus::Online
    &&& after[entry.1].current_chunks@.len() == 0
}

fn sample_entry(
    name: &str,
    address: &str,
    enabled: bool,
    max_concurrent_chunks: u32,
    with_av1: bool,
    cpu_cores: u32,
    memory_gb: u32,
) -> (entry: NodeConfig)
    ensures
        entry.name@ == name@,
        entry.address@ == address@,
        entry.enabled == enabled,
        entry.capabilities.max_concurrent_chunks == max_concurrent_chunks,
        entry.capabilities.cpu_cores == cpu_cores,
        entry.capabilities.memory_gb == memory_gb,
        texts(entry.capabilities.supported_encoders@) == if with_av1 {
            seq!["av1"@, "h264"@, "hevc"@]
        } else {
            seq!["h264"@, "hevc"@]
        },
        tags_of(entry) == Seq::<(Seq<char>, Seq<char>)>::empty(),
{
    let mut encoders: Vec<String> = Vec::new();
    proof {
        assert(texts(encoders@) =~= Seq::<Seq<char>>::empty());
    }
    if with_av1 {
        push_text(&mut encoders, "av1");
    }
    push_text(&mut encoders, "h264");
    push_text(&mut encoders, "hevc");
    let entry = NodeConfig {
        name: String::from_str(name),
        address: String::from_str(address),
        enabled,
        capabilities: NodeCapabilities {
            max_concurrent_chunks,
            supported_encoders: encoders,
            cpu_cores,
            memory_gb,
        },
        tags: Vec::new(),
    };
    proof {
        assert(tags_of(entry) =~= Seq::<(Seq<char>, Seq<char>)>::empty());
    }
    entry
}

fn tag(entry: &mut NodeConfig, key: &str, value: &str)
    ensures
        tags_of(*final(entry)) == tags_of(*old(entry)).push((key@, value@)),
        final(entry).name == old(entry).name,
        final(entry).address == old(entry).address,
        final(entry).enabled == old(entry).enabled,
        final(entry).capabilities == old(entry).capabilities,
{
    entry.tags.push((String::from_str(key), String::from_str(value)));
    proof {
        assert(tags_of(*final(entry)) =~= tags_of(*old(entry)).push((key@, value@)));
    }
}

impl AutoRegister {
    /// Nothing registered yet.
    pub fn new() -> (r: AutoRegister)
        ensures
            r.registered_nodes@.len() == 0,
    {
        AutoRegister { registered_nodes: Vec::new() }
    }

    /// Whether a node with the address `address` is known: remembered as
    /// registered, or in the registry.
    pub fn is_node_registered(&self, state: &ConstellationState, address: &str) -> (known: bool)
        ensures
            known == (remembered(self.registered_nodes@, address@) || has_address(
                state.nodes@,
                address@,
            )),
    {
        broadcast use vstd::std_specs::hash::group_hash_axioms;

        let mut i: usize = 0;
        while i < self.registered_nodes.len()
            invariant
                i <= self.registered_nodes@.len(),
                forall|k: int| 0 <= k < i ==> (#[trigger] self.registered_nodes@[k]).0@ != address@,
            decreases self.registered_nodes@.len() - i,
        {
            if same_text(self.registered_nodes[i].0.as_str(), address) {
                return true;
            }
            i += 1;
        }
        let keys = keys_of(&state.nodes);
        let mut k: usize = 0;
        while k < keys.len()
            invariant
                k <= keys@.len(),
                keys@.to_set() == state.nodes@.dom(),
                !remembered(self.registered_nodes@, address@),
                forall|j: int|
                    0 <= j < k ==> state.nodes@[#[trigger] keys@[j]].address@ != address@,
            decreases keys@.len() - k,
        {
            proof {
                assert(keys@.to_set().contains(keys@[k as int]));
            }
            match state.nodes.get(&keys[k]) {
                Some(node) => {
                    if same_text(node.address.as_str(), address) {
                        return true;
                    }
                },
                None => {},
            }
            k += 1;
        }
        proof {
            assert forall|id: u128| #[trigger] state.nodes@.contains_key(id) implies state.nodes@[id].address@
                != address@ by {
                assert(keys@.to_set().contains(id));
                let j = choose|j: int| 0 <= j < keys@.len() && keys@[j] == id;
                assert(state.nodes@[keys@[j]].address@ != address@);
            }
        }
        false
    }

    /// Deals with one entry of the manifest, with the identifier `id` and
    /// the time `now` at hand.
    ///
    /// An entry that is due is registered under `id`, with its address and
    /// its capabilities, and remembered; the answer is `true`. For any other
    /// entry nothing changes, and the answer is `false`; nor does anything
    /// change where `id` is in use, so that no node is ever replaced.
    pub fn register_node_from_config(
        &mut self,
        state: &mut ConstellationState,
        entry: &NodeConfig,
        id: u128,
        now: i64,
    ) -> (registered: bool)
        requires
            old(state).wf(),
        ensures
            final(state).wf(),
            registered == (is_due(*entry, old(self).registered_nodes@, old(state).nodes@)
                && !old(state).nodes@.contains_key(id)),
            registered ==> exists|registration: NodeRegistration|
                registration.address@ == entry.address@ && capabilities_match(
                    registration.capabilities,
                    entry.capabilities,
                ) && #[trigger] node_registered(
                    old(state).nodes@,
                    final(state).nodes@,
                    id,
                    registration,
                    now,
                ),
            registered ==> final(self).registered_nodes@.len() == old(self).registered_nodes@.len()
                + 1 && final(self).registered_nodes@.last().0@ == entry.address@ && final(self).registered_nodes@.last().1 == id && forall|i: int|
                0 <= i < old(self).registered_nodes@.len() ==> final(self).registered_nodes@[i]
                    == old(self).registered_nodes@[i],
            !registered ==> final(state).nodes@ == old(state).nodes@ && final(self).registered_nodes@ == old(self).registered_nodes@,
            final(state).clients@ == old(state).clients@,
            final(state).jobs@ == old(state).jobs@,
            final(state).chunks@ == old(state).chunks@,
            final(state).config == old(state).config,
    {
        broadcast use vstd::std_specs::hash::group_hash_axioms;

        if !entry.enabled || state.nodes.contains_key(&id) || self.is_node_registered(
            state,
            entry.address.as_str(),
        ) {
            return false;
        }
        let registration = NodeRegistration {
            address: entry.address.clone(),
            capabilities: NodeCapabilities {
                max_concurrent_chunks: entry.capabilities.max_concurrent_chunks,
                supported_encoders: copy_strings(&entry.capabilities.supported_encoders),
                cpu_cores: entry.capabilities.cpu_cores,
                memory_gb: entry.capabilities.memory_gb,
            },
        };
        state.register_node_at(id, registration, now);
        self.registered_nodes.push((entry.address.clone(), id));
        proof {
            assert(node_registered(old(state).nodes@, state.nodes@, id, registration, now));
        }
        true
    }

    /// Goes through the manifest `config`, entry by entry, and registers
    /// what is due, each under an identifier that is not in use and at the
    /// time that the clock shows. The answer is the number of nodes that
    /// were registered.
    ///
    /// A manifest that has registration switched off changes nothing.
    /// Otherwise the address of every entry that is switched on is known
    /// afterwards. The work is purely additive: every node that was in the
    /// registry is still there, as it was, and what was remembered is still
    /// remembered.
    pub fn process_config(&mut self, state: &mut ConstellationState, config: &NodesConfig) -> (count:
        usize)
        requires
            old(state).wf(),
        ensures
            final(state).wf(),
            !config.constellation.auto_register ==> count == 0 && final(state).nodes@ == old(state).nodes@ && final(self).registered_nodes@ == old(self).registered_nodes@,
            forall|id: u128| #[trigger]
                old(state).nodes@.contains_key(id) ==> final(state).nodes@.contains_key(id)
                    && final(state).nodes@[id] == old(state).nodes@[id],
            forall|k: int|
                0 <= k < old(self).registered_nodes@.len() ==> final(self).registered_nodes@[k]
                    == old(self).registered_nodes@[k],
            config.constellation.auto_register ==> forall|i: int|
                0 <= i < config.nodes@.len() && (#[trigger] config.nodes@[i]).enabled ==> is_known(
                    final(self).registered_nodes@,
                    final(state).nodes@,
                    config.nodes@[i].address@,
                ),
            count <= config.nodes@.len(),
            final(self).registered_nodes@.len() == old(self).registered_nodes@.len() + count,
            final(state).nodes@.dom().len() == old(state).nodes@.dom().len() + count,
            forall|k: int|
                old(self).registered_nodes@.len() <= k < final(self).registered_nodes@.len()
                    ==> newly_registered(
                    #[trigger] final(self).registered_nodes@[k],
                    config.nodes@,
                    old(state).nodes@,
                    final(state).nodes@,
                ),
            forall|k: int|
                old(self).registered_nodes@.len() <= k < final(self).registered_nodes@.len()
                    ==> !is_known(
                    old(self).registered_nodes@,
                    old(state).nodes@,
                    (#[trigger] final(self).registered_nodes@[k]).0@,
                ),
            forall|j: int, k: int|
                old(self).registered_nodes@.len() <= j < k < final(self).registered_nodes@.len()
                    ==> (#[trigger] final(self).registered_nodes@[j]).0@ != (
                #[trigger] final(self).registered_nodes@[k]).0@,
            forall|id: u128| #[trigger]
                final(state).nodes@.contains_key(id) ==> old(state).nodes@.contains_key(id)
                    || listed_since(
                    final(self).registered_nodes@,
                    old(self).registered_nodes@.len() as int,
                    id,
                ),
            final(state).clients@ == old(state).clients@,
            final(state).jobs@ == old(state).jobs@,
            final(state).chunks@ == old(state).chunks@,
            final(state).config == old(state).config,
    {
        broadcast use vstd::std_specs::hash::group_hash_axioms;

        if !config.constellation.auto_register {
            return 0;
        }
        let mut count: usize = 0;
        let mut i: usize = 0;
        while i < config.nodes.len()
            invariant
                i <= config.nodes@.len(),
                count <= i,
                state.wf(),
                forall|id: u128| #[trigger]
                    old(state).nodes@.contains_key(id) ==> state.nodes@.contains_key(id)
                        && state.nodes@[id] == old(state).nodes@[id],
                forall|k: int|
                    0 <= k < old(self).registered_nodes@.len() ==> self.registered_nodes@[k] == old(self).registered_nodes@[k],
                self.registered_nodes@.len() == old(self).registered_nodes@.len() + count,
                forall|k: int|
                    0 <= k < i && (#[trigger] config.nodes@[k]).enabled ==> is_known(
                        self.registered_nodes@,
                        state.nodes@,
                        config.nodes@[k].address@,
                    ),
                forall|k: int|
                    old(self).registered_nodes@.len() <= k < self.registered_nodes@.len()
                        ==> newly_registered(
                        #[trigger] self.registered_nodes@[k],
                        config.nodes@,
                        old(state).nodes@,
                        state.nodes@,
                    ),
                forall|k: int|
                    old(self).registered_nodes@.len() <= k < self.registered_nodes@.len()
                        ==> !is_known(
                        old(self).registered_nodes@,
                        old(state).nodes@,
                        (#[trigger] self.registered_nodes@[k]).0@,
                    ),
                forall|j: int, k: int|
                    old(self).registered_nodes@.len() <= j < k < self.registered_nodes@.len()
                        ==> (#[trigger] self.registered_nodes@[j]).0@ != (
                    #[trigger] self.registered_nodes@[k]).0@,
                forall|id: u128| #[trigger]
                    state.nodes@.contains_key(id) ==> old(state).nodes@.contains_key(id)
                        || listed_since(
                        self.registered_nodes@,
                        old(self).registered_nodes@.len() as int,
                        id,
                    ),
                state.nodes@.dom().finite(),
                state.nodes@.dom().len() == old(state).nodes@.dom().len() + count,
                state.clients@ == old(state).clients@,
                state.jobs@ == old(state).jobs@,
                state.chunks@ == old(state).chunks@,
                state.config == old(state).config,
            decreases config.nodes@.len() - i,
        {
            let id = free_id(&state.nodes, fresh_uuid());
            let now = now_millis();
            let ghost nodes = state.nodes@;
            let ghost memo = self.registered_nodes@;
            if self.register_node_from_config(state, &config.nodes[i], id, now) {
                proof {
                    assert(state.nodes@.dom() == nodes.dom().insert(id));
                    assert(self.registered_nodes@[memo.len() as int].0@ == config.nodes@[i as int].address@);
                    assert(remembered(self.registered_nodes@, config.nodes@[i as int].address@));
                    assert forall|k: int|
                        old(self).registered_nodes@.len() <= k < self.registered_nodes@.len() implies newly_registered(
                        #[trigger] self.registered_nodes@[k],
                        config.nodes@,
                        old(state).nodes@,
                        state.nodes@,
                    ) by {
                        if k < memo.len() {
                            assert(self.registered_nodes@[k] == memo[k]);
                            assert(newly_registered(
                                memo[k],
                                config.nodes@,
                                old(state).nodes@,
                                nodes,
                            ));
                            assert(nodes.contains_key(memo[k].1));
                            assert(memo[k].1 != id);
                        } else {
                            assert(config.nodes@[i as int].enabled);
                        }
                    }
                    assert forall|other: u128| #[trigger]
                        old(state).nodes@.contains_key(other) implies state.nodes@.contains_key(
                        other,
                    ) && state.nodes@[other] == old(state).nodes@[other] by {
                        assert(nodes.contains_key(other));
                        assert(state.nodes@.dom().contains(other));
                    }
                    let address = config.nodes@[i as int].address@;
                    let first_new = old(self).registered_nodes@.len() as int;
                    assert(!is_known(old(self).registered_nodes@, old(state).nodes@, address)) by {
                        if is_known(old(self).registered_nodes@, old(state).nodes@, address) {
                            lemma_known_stays(
                                old(self).registered_nodes@,
                                old(state).nodes@,
                                memo,
                                nodes,
                                address,
                            );
                        }
                    }
                    assert forall|j: int, k: int|
                        first_new <= j < k < self.registered_nodes@.len() implies (
                    #[trigger] self.registered_nodes@[j]).0@ != (
                    #[trigger] self.registered_nodes@[k]).0@ by {
                        if k == memo.len() {
                            assert(self.registered_nodes@[j] == memo[j]);
                            assert(!remembered(memo, address));
                        } else {
                            assert(self.registered_nodes@[j] == memo[j]);
                            assert(self.registered_nodes@[k] == memo[k]);
                        }
                    }
                    assert forall|other: u128| #[trigger]
                        state.nodes@.contains_key(other) implies old(state).nodes@.contains_key(
                        other,
                    ) || listed_since(self.registered_nodes@, first_new, other) by {
                        if other == id {
                            assert(self.registered_nodes@[memo.len() as int].1 == id);
                        } else {
                            assert(nodes.contains_key(other));
                            if !old(state).nodes@.contains_key(other) {
                                let k = choose|k: int|
                                    first_new <= k < memo.len() && (#[trigger] memo[k]).1 == other;
                                assert(self.registered_nodes@[k] == memo[k]);
                            }
                        }
                    }
                }
                count += 1;
            }
            proof {
                assert forall|k: int|
                    0 <= k < i + 1 && (#[trigger] config.nodes@[k]).enabled implies is_known(
                    self.registered_nodes@,
                    state.nodes@,
                    config.nodes@[k].address@,
                ) by {
                    if k < i {
                        assert forall|other: u128| #[trigger] nodes.contains_key(other) implies state.nodes@.contains_key(
                            other,
                        ) && state.nodes@[other] == nodes[other] by {
                            assert(state.nodes@.dom().contains(other) || state.nodes@ == nodes);
                        }
                        lemma_known_stays(
                            memo,
                            nodes,
                            self.registered_nodes@,
                            state.nodes@,
                            config.nodes@[k].address@,
                        );
                    }
                }
            }
            i += 1;
        }
        count
    }
}

/// The labels of a manifest entry, as plain values.
pub open spec fn tags_of(entry: NodeConfig) -> Seq<(Seq<char>, Seq<char>)> {
    entry.tags@.map_values(|t: (String, String)| (t.0@, t.1@))
}

impl AutoRegister {
    /// A manifest to start from: two workstations that are switched on, and a
    /// server with a graphics card that is not.
    pub fn generate_sample_config() -> (config: NodesConfig)
        ensures
            config.constellation.url@ == "http://localhost:3030"@,
            config.constellation.auto_register,
            config.constellation.heartbeat_interval == 30,
            config.constellation.registration_interval == 60,
            config.nodes@.len() == 3,
            config.nodes@[0].name@ == "workstation-01"@,
            config.nodes@[0].address@ == "192.168.1.101:8080"@,
            config.nodes@[0].enabled,
            config.nodes@[0].capabilities.max_concurrent_chunks == 8,
            config.nodes@[0].capabilities.cpu_cores == 16,
            config.nodes@[0].capabilities.memory_gb == 32,
            texts(config.nodes@[0].capabilities.supported_encoders@) == seq![
                "av1"@,
                "h264"@,
                "hevc"@,
            ],
            config.nodes@[1].name@ == "workstation-02"@,
            config.nodes@[1].address@ == "192.168.1.102:8080"@,
            config.nodes@[1].enabled,
            config.nodes@[1].capabilities.max_concurrent_chunks == 4,
            config.nodes@[1].capabilities.cpu_cores == 8,
            config.nodes@[1].capabilities.memory_gb == 16,
            texts(config.nodes@[1].capabilities.supported_encoders@) == seq!["h264"@, "hevc"@],
            config.nodes@[2].name@ == "gpu-server-01"@,
            config.nodes@[2].address@ == "192.168.1.103:8080"@,
            !config.nodes@[2].enabled,
            config.nodes@[2].capabilities.max_concurrent_chunks == 16,
            config.nodes@[2].capabilities.cpu_cores == 32,
            config.nodes@[2].capabilities.memory_gb == 64,
            texts(config.nodes@[2].capabilities.supported_encoders@) == seq![
                "av1"@,
                "h264"@,
                "hevc"@,
            ],
            tags_of(config.nodes@[0]) == seq![
                ("environment"@, "production"@),
                ("location"@, "datacenter-1"@),
            ],
            tags_of(config.nodes@[1]) == seq![
                ("environment"@, "development"@),
                ("location"@, "office"@),
            ],
            tags_of(config.nodes@[2]) == seq![
                ("environment"@, "production"@),
                ("gpu"@, "nvidia-rtx-4090"@),
                ("priority"@, "high"@),
            ],
    {
        let mut first = sample_entry("workstation-01", "192.168.1.101:8080", true, 8, true, 16, 32);
        tag(&mut first, "environment", "production");
        tag(&mut first, "location", "datacenter-1");
        let mut second = sample_entry("workstation-02", "192.168.1.102:8080", true, 4, false, 8, 16);
        tag(&mut second, "environment", "development");
        tag(&mut second, "location", "office");
        let mut third = sample_entry("gpu-server-01", "192.168.1.103:8080", false, 16, true, 32, 64);
        tag(&mut third, "environment", "production");
        tag(&mut third, "gpu", "nvidia-rtx-4090");
        tag(&mut third, "priority", "high");
        let mut nodes: Vec<NodeConfig> = Vec::new();
        nodes.push(first);
        nodes.push(second);
        nodes.push(third);
        NodesConfig { constellation: ConstellationSettings::default(), nodes }
    }
}

} // verus!
