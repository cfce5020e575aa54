//! The other computers on the local network.

use crate::text::{chars_of, find_char, same, string_of};
use vstd::prelude::*;
use vstd::string::StringExecFns;

#[allow(unused_imports)]
use crate::text::{first_of, lemma_first_of};

verus! {

/// The kind of service under which the computers find each other.
pub const SERVICE_TYPE: &'static str = "_deskbridge._tcp.local.";

/// The property that the service is registered with: its name and its value.
pub const SERVICE_PROPERTY: (&'static str, &'static str) = ("app", "deskbridge");

/// The port of the service.
pub const SERVICE_PORT: u16 = 53200;

/// A computer that was found on the network.
#[derive(Clone, Debug, PartialEq, Eq)]
pub struct DiscoveredNode {
    pub hostname: String,
    pub ip: String,
    pub port: u16,
}

/// What is known of a computer on the network.
#[verifier::ext_equal]
pub struct Node {
    pub hostname: Seq<char>,
    pub ip: Seq<char>,
    pub port: u16,
}

impl View for DiscoveredNode {
    type V = Node;

    open spec fn view(&self) -> Node {
        Node { hostname: self.hostname@, ip: self.ip@, port: self.port }
    }
}

/// The computers that were found so far.
#[derive(Clone, Debug, PartialEq, Eq)]
pub struct MdnsState {
    pub discovered_nodes: Vec<DiscoveredNode>,
}

/// The service that this computer offers on the network.
#[derive(Clone, Debug, PartialEq, Eq)]
pub struct Registration {
    pub hostname: String,
    pub instance_name: String,
    pub host_name: String,
    pub ip: String,
    pub port: u16,
}

/// The views of a list of nodes.
pub open spec fn node_views(nodes: Seq<DiscoveredNode>) -> Seq<Node> {
    nodes.map_values(|node: DiscoveredNode| node@)
}

/// Whether two nodes are reached by the same address and port.
pub open spec fn same_place(a: Node, b: Node) -> bool {
    a.ip == b.ip && a.port == b.port
}

/// Whether a list holds a node at the place of the given one.
pub open spec fn is_known(nodes: Seq<Node>, node: Node) -> bool {
    exists|i: int| 0 <= i < nodes.len() && same_place(#[trigger] nodes[i], node)
}

/// Whether no two nodes of a list are at the same place.
pub open spec fn no_two_alike(nodes: Seq<Node>) -> bool {
    forall|i: int, j: int|
        0 <= i < j < nodes.len() ==> !same_place(#[trigger] nodes[i], #[trigger] nodes[j])
}

/// The list after a node was found: a node at a new place comes last.
pub open spec fn with_node(nodes: Seq<Node>, node: Node) -> Seq<Node> {
    if is_known(nodes, node) {
        nodes
    } else {
        nodes.push(node)
    }
}

/// A host name that can be the first part of a service's name: without dots.
pub open spec fn cleaned(hostname: Seq<char>) -> Seq<char> {
    hostname.map_values(
        |c: char|
            if c == '.' {
                '_'
            } else {
                c
            },
    )
}

/// The part of a name before its first dot.
pub open spec fn short_name(fullname: Seq<char>) -> Seq<char> {
    fullname.take(first_of(fullname, '.') as int)
}

/// The full name of the service of a host.
pub open spec fn instance_of(hostname: Seq<char>) -> Seq<char> {
    cleaned(hostname) + seq!['.'] + SERVICE_TYPE@
}

fn clean(hostname: &str) -> (s: String)
    ensures
        s@ == cleaned(hostname@),
{
    let mut s = String::new();
    for c in it: hostname.chars()
        invariant
            it.seq() == hostname@,
            s@ == cleaned(hostname@).take(it.index() as int),
    {
        if c == '.' {
            s.push('_');
        } else {
            s.push(c);
        }
    }
    s
}

fn shorten(fullname: &str) -> (s: String)
    ensures
        s@ == short_name(fullname@),
{
    let chars = chars_of(fullname);
    let end = find_char(&chars, '.');
    proof {
        lemma_first_of(chars@, '.');
        assert(chars@.subrange(0, end as int) == chars@.take(end as int));
    }
    string_of(&crate::text::cut(&chars, 0, end))
}

/// The service to register, from the name and the address of this computer where they
/// are known.
pub fn registration(hostname: Option<String>, local_ip: Option<String>, port: u16) -> (r:
    Registration)
    ensures
        r.hostname@ == match hostname {
            Some(hostname) => hostname@,
            None => "unknown-host"@,
        },
        r.ip@ == match local_ip {
            Some(ip) => ip@,
            None => "127.0.0.1"@,
        },
        r.port == port,
        r.instance_name@ == instance_of(r.hostname@),
        r.host_name@ == cleaned(r.hostname@) + ".local."@,
{
    let hostname = match hostname {
        Some(hostname) => hostname,
        None => "unknown-host".to_owned(),
    };
    let ip = match local_ip {
        Some(ip) => ip,
        None => "127.0.0.1".to_owned(),
    };
    let clean_hostname = clean(hostname.as_str());
    let mut instance_name = clean_hostname.clone();
    instance_name.push('.');
    instance_name.append(SERVICE_TYPE);
    assert(instance_name@ == instance_of(hostname@));
    let mut host_name = clean_hostname;
    host_name.append(".local.");
    Registration { hostname, instance_name, host_name, ip, port }
}

fn same_text(a: &str, b: &str) -> (r: bool)
    ensures
        r == (a@ == b@),
{
    same(&chars_of(a), &chars_of(b))
}

impl DiscoveredNode {
    /// A copy of the node.
    pub fn copied(&self) -> (node: DiscoveredNode)
        ensures
            node@ == self@,
    {
        DiscoveredNode { hostname: self.hostname.clone(), ip: self.ip.clone(), port: self.port }
    }
}

impl MdnsState {
    /// The nodes that were found, in the order in which they were.
    pub open spec fn nodes(&self) -> Seq<Node> {
        node_views(self.discovered_nodes@)
    }

    /// Whether no node is listed twice.
    pub open spec fn wf(&self) -> bool {
        no_two_alike(self.nodes())
    }

    /// A state in which no node was found yet.
    pub fn new() -> (state: MdnsState)
        ensures
            state.nodes() == Seq::<Node>::empty(),
            state.wf(),
    {
        let state = MdnsState { discovered_nodes: Vec::new() };
        assert(state.nodes() == Seq::<Node>::empty());
        state
    }

    /// Whether a node at the given place is listed.
    fn knows(&self, node: &DiscoveredNode) -> (r: bool)
        ensures
            r == is_known(self.nodes(), node@),
    {
        let mut i: usize = 0;
        while i < self.discovered_nodes.len()
            invariant
                i <= self.discovered_nodes@.len(),
                forall|j: int| 0 <= j < i ==> !same_place(#[trigger] self.nodes()[j], node@),
            decreases self.discovered_nodes@.len() - i,
        {
            let other = &self.discovered_nodes[i];
            assert(self.nodes()[i as int] == other@);
            if same_text(other.ip.as_str(), node.ip.as_str()) && other.port == node.port {
                return true;
            }
            i += 1;
        }
        false
    }

    /// Takes note of a service that was found: its first address, if it has one, its
    /// port and its full name. Gives the node to announce, and nothing for the service
    /// of this computer itself.
    pub fn resolve(
        &mut self,
        local_ip: &str,
        local_port: u16,
        address: Option<String>,
        port: u16,
        fullname: &str,
    ) -> (found: Option<DiscoveredNode>)
        ensures
            ({
                let ip = match address {
                    Some(address) => address@,
                    None => Seq::<char>::empty(),
                };
                let node = Node { hostname: short_name(fullname@), ip, port };
                if ip == local_ip@ && port == local_port {
                    &&& found is None
                    &&& *final(self) == *old(self)
                } else {
                    &&& found matches Some(f) && f@ == node
                    &&& final(self).nodes() == with_node(old(self).nodes(), node)
                }
            }),
            old(self).wf() ==> final(self).wf(),
    {
        let ip = match address {
            Some(address) => address,
            None => String::new(),
        };
        if same_text(ip.as_str(), local_ip) && port == local_port {
            return None;
        }
        let node = DiscoveredNode { hostname: shorten(fullname), ip, port };
        if !self.knows(&node) {
            let ghost before = self.nodes();
            self.discovered_nodes.push(node.copied());
            assert(self.nodes() == before.push(node@));
            proof {
                if no_two_alike(before) {
                    law_no_duplicates(before, node@);
                }
            }
        }
        Some(node)
    }

    /// The nodes that were found so far.
    pub fn get_discovered_nodes(&self) -> (nodes: Vec<DiscoveredNode>)
        ensures
            node_views(nodes@) == self.nodes(),
    {
        let mut nodes: Vec<DiscoveredNode> = Vec::new();
        let mut i: usize = 0;
        while i < self.discovered_nodes.len()
            invariant
                i <= self.discovered_nodes@.len(),
                node_views(nodes@) == self.nodes().take(i as int),
            decreases self.discovered_nodes@.len() - i,
        {
            let ghost before = node_views(nodes@);
            nodes.push(self.discovered_nodes[i].copied());
            assert(node_views(nodes@) == before.push(self.nodes()[i as int]));
            i += 1;
        }
        assert(self.nodes().take(i as int) == self.nodes());
        nodes
    }
}

/// No place is listed twice, however many nodes are found.
pub proof fn law_no_duplicates(nodes: Seq<Node>, node: Node)
    requires
        no_two_alike(nodes),
    ensures
        no_two_alike(with_node(nodes, node)),
{
}

/// A node that was found is known from then on; no node that was known is lost, moved
/// or changed; and finding a node again changes nothing.
pub proof fn law_found_nodes_stay(nodes: Seq<Node>, node: Node)
    ensures
        is_known(with_node(nodes, node), node),
        with_node(nodes, node).take(nodes.len() as int) == nodes,
        with_node(with_node(nodes, node), node) == with_node(nodes, node),
{
    if !is_known(nodes, node) {
        assert(same_place(nodes.push(node)[nodes.len() as int], node));
    }
}

/// A computer appears to the others under the name that it registered with.
pub proof fn law_registered_name_is_found(hostname: Seq<char>)
    ensures
        short_name(instance_of(hostname)) == cleaned(hostname),
        !hostname.contains('.') ==> short_name(instance_of(hostname)) == hostname,
{
    let name = cleaned(hostname);
    let full = instance_of(hostname);
    lemma_first_of(full, '.');
    let n = name.len() as int;
    assert(full[n] == '.');
    assert forall|j: int| 0 <= j < n implies full[j] != '.' by {
        assert(full[j] == name[j]);
    }
    assert(first_of(full, '.') == n);
    assert(full.take(n) == name);
    if !hostname.contains('.') {
        assert forall|j: int| 0 <= j < n implies name[j] == hostname[j] by {
            assert(hostname.contains(hostname[j]));
        }
        assert(name == hostname);
    }
}

/// Every computer that is found is listed by its own address: afterwards an entry has its
/// address and its port.
pub proof fn law_found_node_is_listed(nodes: Seq<Node>, node: Node)
    ensures
        exists|i: int|
            0 <= i < with_node(nodes, node).len() && (#[trigger] with_node(nodes, node)[i]).ip
                == node.ip && with_node(nodes, node)[i].port == node.port,
{
    let after = with_node(nodes, node);
    if is_known(nodes, node) {
        let i = choose|i: int| 0 <= i < nodes.len() && same_place(#[trigger] nodes[i], node);
        assert(after[i].ip == node.ip && after[i].port == node.port);
    } else {
        let last = nodes.len() as int;
        assert(after[last].ip == node.ip && after[last].port == node.port);
    }
}

/// A computer at a new address or a new port is listed as it was found, behind the
/// others; one whose address and port are listed changes nothing.
pub proof fn law_new_node_comes_last(nodes: Seq<Node>, node: Node)
    ensures
        (forall|i: int|
            0 <= i < nodes.len() ==> (#[trigger] nodes[i]).ip != node.ip || nodes[i].port
                != node.port) ==> with_node(nodes, node) == nodes.push(node),
        (exists|i: int|
            0 <= i < nodes.len() && (#[trigger] nodes[i]).ip == node.ip && nodes[i].port
                == node.port) ==> with_node(nodes, node) == nodes,
{
    if exists|i: int|
        0 <= i < nodes.len() && (#[trigger] nodes[i]).ip == node.ip && nodes[i].port == node.port {
        let i = choose|i: int|
            0 <= i < nodes.len() && (#[trigger] nodes[i]).ip == node.ip && nodes[i].port
                == node.port;
        assert(same_place(nodes[i], node));
    }
}

/// Two computers that differ in their address or in their port are both listed.
pub proof fn law_neighbours_are_all_listed(nodes: Seq<Node>, a: Node, b: Node)
    requires
        a.ip != b.ip || a.port != b.port,
    ensures
        ({
            let after = with_node(with_node(nodes, a), b);
            &&& exists|i: int|
                0 <= i < after.len() && (#[trigger] after[i]).ip == a.ip && after[i].port == a.port
            &&& exists|j: int|
                0 <= j < after.len() && (#[trigger] after[j]).ip == b.ip && after[j].port == b.port
        }),
{
    let first = with_node(nodes, a);
    law_found_node_is_listed(nodes, a);
    law_found_node_is_listed(first, b);
    law_found_nodes_stay(first, b);
    let i = choose|i: int|
        0 <= i < first.len() && (#[trigger] first[i]).ip == a.ip && first[i].port == a.port;
    let after = with_node(first, b);
    assert(after.take(first.len() as int)[i] == first[i]);
    assert(after[i].ip == a.ip && after[i].port == a.port);
}

/// No two entries of a list without duplicates have the same address and port.
pub proof fn law_places_differ(nodes: Seq<Node>, i: int, j: int)
    requires
        no_two_alike(nodes),
        0 <= i < j < nodes.len(),
    ensures
        nodes[i].ip != nodes[j].ip || nodes[i].port != nodes[j].port,
{
    assert(!same_place(nodes[i], nodes[j]));
}

/// A cleaned name is the name with an underscore for each dot.
pub proof fn law_cleaned(hostname: Seq<char>, i: int)
    requires
        0 <= i < hostname.len(),
    ensures
        cleaned(hostname).len() == hostname.len(),
        hostname[i] == '.' ==> cleaned(hostname)[i] == '_',
        hostname[i] != '.' ==> cleaned(hostname)[i] == hostname[i],
{
}

/// The short name is what stands before the first dot, or the whole name.
pub proof fn law_short_name(host: Seq<char>, rest: Seq<char>)
    requires
        !host.contains('.'),
    ensures
        short_name(host) == host,
        short_name(host + seq!['.'] + rest) == host,
{
    let full = host + seq!['.'] + rest;
    let n = host.len() as int;
    lemma_first_of(host, '.');
    lemma_first_of(full, '.');
    assert forall|j: int| 0 <= j < n implies host[j] != '.' && full[j] != '.' by {
        assert(host.contains(host[j]));
        assert(full[j] == host[j]);
    }
    assert(full[n] == '.');
    assert(first_of(full, '.') == n);
    assert(first_of(host, '.') == n);
    assert(full.take(n) == host);
    assert(host.take(n) == host);
}

/// A service is registered under the cleaned name of the host, a dot and the kind of
/// service.
pub proof fn law_instance_name(hostname: Seq<char>)
    ensures
        instance_of(hostname).len() == hostname.len() + 1 + "_deskbridge._tcp.local."@.len(),
        instance_of(hostname).take(hostname.len() as int) == cleaned(hostname),
        instance_of(hostname).skip(hostname.len() as int) == "._deskbridge._tcp.local."@,
{
    reveal_strlit("_deskbridge._tcp.local.");
    reveal_strlit("._deskbridge._tcp.local.");
    let full = instance_of(hostname);
    let n = hostname.len() as int;
    assert(full.take(n) == cleaned(hostname));
    assert(full.skip(n) == "._deskbridge._tcp.local."@);
}

/// A node, and a list of nodes, is seen with all that is known of it.
pub proof fn law_node_view(state: MdnsState, i: int)
    requires
        0 <= i < state.discovered_nodes@.len(),
    ensures
        state.nodes().len() == state.discovered_nodes@.len(),
        state.nodes()[i].hostname == state.discovered_nodes@[i].hostname@,
        state.nodes()[i].ip == state.discovered_nodes@[i].ip@,
        state.nodes()[i].port == state.discovered_nodes@[i].port,
        node_views(state.discovered_nodes@) == state.nodes(),
        state.discovered_nodes@[i]@ == state.nodes()[i],
{
}

} // verus!
