//! The Capability Derivation Tree: a table of capability nodes indexed by
//! token identifier, giving O(1) validation of a token against its owner.
use vstd::prelude::*;
use super::token::{Token, RIGHT_GOD};

verus! {

/// Maximum number of unique capability tokens the kernel tracks.
pub const MAX_CAPABILITIES: usize = 1024;

/// One entry of the Capability Derivation Tree.
#[derive(Debug, Clone, Copy, PartialEq, Eq, Structural)]
pub struct CapabilityNode {
    /// The process that currently owns this capability.
    pub owner_pid: u64,
    /// The token data: identifier and rights.
    pub token: Token,
    /// Whether this node represents a valid, active capability.
    pub active: bool,
}

/// The value of a node that holds no capability.
pub open spec fn empty_node() -> CapabilityNode {
    CapabilityNode { owner_pid: 0, token: Token { id: 0, rights: 0 }, active: false }
}

/// The node that seals the genesis token to the kernel (PID 0).
pub open spec fn genesis_node() -> CapabilityNode {
    CapabilityNode { owner_pid: 0, token: Token { id: 0, rights: RIGHT_GOD }, active: true }
}

impl CapabilityNode {
    /// Sentinel value for an uninitialized or freed node.
    fn empty() -> (n: CapabilityNode)
        ensures
            n == empty_node(),
    {
        CapabilityNode { owner_pid: 0, token: Token { id: 0, rights: 0 }, active: false }
    }
}

/// The container of all kernel capabilities.
pub struct CapabilityDerivationTree {
    pub nodes: [CapabilityNode; MAX_CAPABILITIES],
}

impl CapabilityDerivationTree {
    /// Whether `pid` is the rightful owner of `token`: the node at the token's
    /// index is active, owned by `pid`, and carries exactly the token's rights.
    pub open spec fn spec_validate(&self, pid: u64, token: Token) -> bool {
        &&& token.id < MAX_CAPABILITIES
        &&& self.nodes@[token.id as int].active
        &&& self.nodes@[token.id as int].owner_pid == pid
        &&& self.nodes@[token.id as int].token.rights == token.rights
    }

    /// Whether no node of the tree is active.
    pub open spec fn is_empty(&self) -> bool {
        forall|i: int| 0 <= i < MAX_CAPABILITIES ==> !(#[trigger] self.nodes@[i]).active
    }

    /// A new tree in which every node is empty.
    pub fn new() -> (t: Self)
        ensures
            forall|i: int| 0 <= i < MAX_CAPABILITIES ==> #[trigger] t.nodes@[i] == empty_node(),
    {
        CapabilityDerivationTree { nodes: [CapabilityNode::empty(); MAX_CAPABILITIES] }
    }

    /// Validates whether `pid` is the rightful owner of `token`.
    pub fn validate(&self, pid: u64, token: Token) -> (r: bool)
        ensures
            r == self.spec_validate(pid, token),
    {
        if token.id >= MAX_CAPABILITIES as u64 {
            return false;
        }
        let index = token.id as usize;
        let node = &self.nodes[index];
        node.active && node.owner_pid == pid && node.token.rights == token.rights
    }
}

/// Seals the genesis token at index 0 of the tree, owned by the kernel
/// (PID 0), and runs the validation self-test, whose outcome is returned.
pub fn init(tree: &mut CapabilityDerivationTree) -> (self_test_passed: bool)
    ensures
        final(tree).nodes@ == old(tree).nodes@.update(0, genesis_node()),
        self_test_passed,
{
    tree.nodes[0] = CapabilityNode { owner_pid: 0, token: Token::mint_genesis(), active: true };
    let test_token = Token::mint_genesis();
    let ok = tree.validate(0, test_token);
    assert(ok);
    ok
}

/// On a freshly sealed tree exactly one capability validates: the genesis
/// token, presented by the kernel (PID 0).
pub proof fn lemma_sealed_tree_accepts_only_genesis(
    fresh: CapabilityDerivationTree,
    sealed: CapabilityDerivationTree,
    pid: u64,
    token: Token,
)
    requires
        fresh.is_empty(),
        sealed.nodes@ == fresh.nodes@.update(0, genesis_node()),
    ensures
        sealed.spec_validate(pid, token) <==> (token.id == 0 && pid == 0 && token.rights
            == RIGHT_GOD),
{
    if token.id < MAX_CAPABILITIES && token.id != 0 {
        assert(!fresh.nodes@[token.id as int].active);
    }
}

} // verus!
