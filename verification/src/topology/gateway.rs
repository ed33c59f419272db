//! Gateway nodes: the edge of the mix network, where clients are registered.

use vstd::prelude::*;

use crate::endpoint::Endpoint;
use crate::topology::b58_key_bytes;
use crate::topology::decode_key_onto;

verus! {

/// A client registered at a gateway, identified by its public key.
#[derive(Clone, Debug)]
pub struct Client {
    pub pub_key: String,
}

impl Client {
    /// An owned copy with the same contents.
    pub fn duplicate(&self) -> (c: Client)
        ensures
            c == *self,
    {
        Client { pub_key: self.pub_key.clone() }
    }
}

/// One gateway node as the directory describes it.
#[derive(Clone, Debug)]
pub struct Node {
    pub location: String,
    pub client_listener: String,
    pub mixnet_listener: Endpoint,
    pub identity_key: String,
    pub sphinx_key: String,
    pub registered_clients: Vec<Client>,
    pub last_seen: u64,
    pub version: String,
}

/// Two gateway nodes with the same contents, their client lists compared
/// element by element.
pub open spec fn same_gateway(a: Node, b: Node) -> bool {
    &&& a.location == b.location
    &&& a.client_listener == b.client_listener
    &&& a.mixnet_listener == b.mixnet_listener
    &&& a.identity_key == b.identity_key
    &&& a.sphinx_key == b.sphinx_key
    &&& a.registered_clients@ == b.registered_clients@
    &&& a.last_seen == b.last_seen
    &&& a.version == b.version
}

impl Node {
    /// An owned copy with the same contents.
    pub fn duplicate(&self) -> (n: Node)
        ensures
            same_gateway(n, *self),
    {
        let mut clients: Vec<Client> = Vec::new();
        let m = self.registered_clients.len();
        let mut idx: usize = 0;
        while idx < m
            invariant
                idx <= m,
                m == self.registered_clients@.len(),
                clients@ == self.registered_clients@.take(idx as int),
            decreases m - idx,
        {
            clients.push(self.registered_clients[idx].duplicate());
            proof {
                assert(self.registered_clients@.take(idx + 1int) =~= self.registered_clients@.take(
                    idx as int,
                ).push(self.registered_clients@[idx as int]));
            }
            idx = idx + 1;
        }
        proof {
            assert(self.registered_clients@.take(m as int) =~= self.registered_clients@);
        }
        Node {
            location: self.location.clone(),
            client_listener: self.client_listener.clone(),
            mixnet_listener: self.mixnet_listener,
            identity_key: self.identity_key.clone(),
            sphinx_key: self.sphinx_key.clone(),
            registered_clients: clients,
            last_seen: self.last_seen,
            version: self.version.clone(),
        }
    }

    /// The node's sphinx key, base58-decoded into its 32-byte wire form;
    /// `None` when the recorded key is not valid base58 of at most 32 bytes.
    pub fn get_sphinx_key_bytes(&self) -> (r: Option<Vec<u8>>)
        ensures
            match r {
                Some(v) => b58_key_bytes(self.sphinx_key@) == Some(v@) && v@.len() == 32,
                None => b58_key_bytes(self.sphinx_key@) is None,
            },
    {
        decode_key_onto(&self.sphinx_key)
    }

    /// Whether a client with exactly this public key is registered here.
    pub fn has_client(&self, client_pub_key: String) -> (r: bool)
        ensures
            r == exists|i: int|
                0 <= i < self.registered_clients@.len() && self.registered_clients@[i].pub_key@
                    == client_pub_key@,
    {
        let n = self.registered_clients.len();
        let mut idx: usize = 0;
        while idx < n
            invariant
                idx <= n,
                n == self.registered_clients@.len(),
                forall|i: int|
                    0 <= i < idx ==> self.registered_clients@[i].pub_key@ != client_pub_key@,
            decreases n - idx,
        {
            if self.registered_clients[idx].pub_key == client_pub_key {
                return true;
            }
            idx = idx + 1;
        }
        false
    }
}

/// Exactly the nodes whose recorded version equals `expected`, in order.
pub open spec fn nodes_with_version(nodes: Seq<Node>, expected: Seq<char>) -> Seq<Node>
    decreases nodes.len(),
{
    if nodes.len() == 0 {
        Seq::empty()
    } else {
        let rest = nodes_with_version(nodes.drop_last(), expected);
        if nodes.last().version@ == expected {
            rest.push(nodes.last())
        } else {
            rest
        }
    }
}

/// Keeps exactly the nodes whose recorded version equals `expected`, in order.
pub fn filter_by_version(nodes: Vec<Node>, expected: &String) -> (r: Vec<Node>)
    ensures
        r@ == nodes_with_version(nodes@, expected@),
{
    let ghost orig = nodes@;
    let mut rest = nodes;
    let mut r: Vec<Node> = Vec::new();
    let ghost mut done: int = 0;
    while rest.len() > 0
        invariant
            0 <= done <= orig.len(),
            rest@ == orig.skip(done),
            r@ == nodes_with_version(orig.take(done), expected@),
        decreases rest@.len(),
    {
        let node = rest.remove(0);
        proof {
            assert(orig.skip(done).remove(0) =~= orig.skip(done + 1));
            assert(orig.skip(done)[0] == orig[done]);
            let s_next = orig.take(done + 1);
            assert(s_next.drop_last() =~= orig.take(done));
            assert(s_next.last() == orig[done]);
            assert(nodes_with_version(s_next, expected@) == if s_next.last().version@
                == expected@ {
                nodes_with_version(s_next.drop_last(), expected@).push(s_next.last())
            } else {
                nodes_with_version(s_next.drop_last(), expected@)
            });
        }
        if node.version == *expected {
            r.push(node);
        }
        proof {
            done = done + 1;
        }
    }
    proof {
        assert(orig.take(done) =~= orig);
    }
    r
}

} // verus!
