//! Account state with its Merkle proofs, and the wire view of both.
//! Verifying a proof against a state root is the business of the storage
//! collaborator; here a proof is carried and re-shaped without loss.

use vstd::prelude::*;

use crate::hash::HashValue;
use crate::views::StrView;

verus! {

/// A sparse Merkle proof: the leaf actually found, if any, and the sibling
/// hashes from leaf to root.
#[derive(Debug, PartialEq, Eq)]
pub struct SparseMerkleProof {
    pub leaf: Option<(HashValue, HashValue)>,
    pub siblings: Vec<HashValue>,
}

/// Two proofs carry the same hashes.
pub open spec fn proof_mirrors(a: SparseMerkleProof, b: SparseMerkleProof) -> bool {
    (match (a.leaf, b.leaf) {
        (Some(x), Some(y)) => x.0@ == y.0@ && x.1@ == y.1@,
        (None, None) => true,
        _ => false,
    }) && a.siblings@.len() == b.siblings@.len() && (forall|i: int|
        0 <= i < a.siblings@.len() ==> #[trigger] a.siblings@[i]@ == b.siblings@[i]@)
}

impl SparseMerkleProof {
    /// A copy of the proof.
    pub fn duplicate(&self) -> (r: SparseMerkleProof)
        ensures
            proof_mirrors(r, *self),
    {
        let leaf = match &self.leaf {
            Some((k, v)) => Some((k.duplicate(), v.duplicate())),
            None => None,
        };
        let mut siblings: Vec<HashValue> = Vec::new();
        let mut i: usize = 0;
        while i < self.siblings.len()
            invariant
                i <= self.siblings@.len(),
                siblings@.len() == i,
                forall|k: int| 0 <= k < i ==> #[trigger] siblings@[k]@ == self.siblings@[k]@,
            decreases self.siblings@.len() - i,
        {
            siblings.push(self.siblings[i].duplicate());
            i = i + 1;
        }
        SparseMerkleProof { leaf, siblings }
    }
}

/// The proof chain for one account's state: the account blob as read, the
/// proof of the account in the global tree, and the proof of the state
/// slot under the account.
#[derive(Debug, PartialEq, Eq)]
pub struct StateProof {
    pub account_state: Option<Vec<u8>>,
    pub account_proof: SparseMerkleProof,
    pub account_state_proof: SparseMerkleProof,
}

impl StateProof {
    /// Bundles the proof chain.
    pub fn new(
        account_state: Option<Vec<u8>>,
        account_proof: SparseMerkleProof,
        account_state_proof: SparseMerkleProof,
    ) -> (r: StateProof)
        ensures
            r.account_state == account_state,
            r.account_proof == account_proof,
            r.account_state_proof == account_state_proof,
    {
        StateProof { account_state, account_proof, account_state_proof }
    }
}

/// A state value together with its proof chain.
#[derive(Debug, PartialEq, Eq)]
pub struct StateWithProof {
    pub state: Option<Vec<u8>>,
    pub proof: StateProof,
}

impl StateWithProof {
    /// Bundles a state value with its proofs.
    pub fn new(state: Option<Vec<u8>>, proof: StateProof) -> (r: StateWithProof)
        ensures
            r.state == state,
            r.proof == proof,
    {
        StateWithProof { state, proof }
    }
}

/// State-with-proof as it travels outbound: byte fields hex-rendered.
#[derive(Debug, PartialEq, Eq)]
pub struct StateWithProofView {
    pub state: Option<StrView<Vec<u8>>>,
    pub account_state: Option<StrView<Vec<u8>>>,
    pub account_proof: SparseMerkleProof,
    pub account_state_proof: SparseMerkleProof,
}

impl StateWithProofView {
    /// Renders a state-with-proof.
    pub fn from_state(sp: StateWithProof) -> (r: StateWithProofView)
        ensures
            r.state == match sp.state {
                Some(v) => Some(StrView(v)),
                None => None::<StrView<Vec<u8>>>,
            },
            r.account_state == match sp.proof.account_state {
                Some(v) => Some(StrView(v)),
                None => None::<StrView<Vec<u8>>>,
            },
            r.account_proof == sp.proof.account_proof,
            r.account_state_proof == sp.proof.account_state_proof,
    {
        let StateWithProof { state, proof } = sp;
        let StateProof { account_state, account_proof, account_state_proof } = proof;
        let state_view = match state {
            Some(v) => Some(StrView(v)),
            None => None,
        };
        let account_state_view = match account_state {
            Some(v) => Some(StrView(v)),
            None => None,
        };
        StateWithProofView {
            state: state_view,
            account_state: account_state_view,
            account_proof,
            account_state_proof,
        }
    }

    /// The proof chain, copied out of the view.
    pub fn state_proof(&self) -> (r: StateProof)
        ensures
            match (r.account_state, self.account_state) {
                (Some(a), Some(b)) => a@ == b.0@,
                (None, None) => true,
                _ => false,
            },
            proof_mirrors(r.account_proof, self.account_proof),
            proof_mirrors(r.account_state_proof, self.account_state_proof),
    {
        let account_state = match &self.account_state {
            Some(v) => {
                let cloned = v.0.clone();
                proof {
                    assert(cloned@ =~= v.0@);
                }
                Some(cloned)
            },
            None => None,
        };
        StateProof::new(
            account_state,
            self.account_proof.duplicate(),
            self.account_state_proof.duplicate(),
        )
    }

    /// Reads the view back: the exact inverse of rendering.
    pub fn into_state(self) -> (r: StateWithProof)
        ensures
            r.state == match self.state {
                Some(v) => Some(v.0),
                None => None::<Vec<u8>>,
            },
            r.proof.account_state == match self.account_state {
                Some(v) => Some(v.0),
                None => None::<Vec<u8>>,
            },
            r.proof.account_proof == self.account_proof,
            r.proof.account_state_proof == self.account_state_proof,
    {
        let StateWithProofView { state, account_state, account_proof, account_state_proof } = self;
        let state_bytes = match state {
            Some(v) => Some(v.0),
            None => None,
        };
        let account_state_bytes = match account_state {
            Some(v) => Some(v.0),
            None => None,
        };
        StateWithProof::new(
            state_bytes,
            StateProof::new(account_state_bytes, account_proof, account_state_proof),
        )
    }
}

} // verus!
