//! A vault of restricted tokens: tokens are minted for free, and each mint
//! or withdrawal comes with a proof of a move badge, without which the
//! tokens cannot be deposited anywhere.
use vstd::prelude::*;
use crate::decimal::{whole, Decimal};
use crate::resource::{group_bucket, Bucket, NonFungible, Proof, ResourceAddress};

verus! {

broadcast use group_bucket;

/// The resources the component makes when it is instantiated.
#[derive(Clone, Copy, Debug, PartialEq, Eq, Structural)]
pub struct HelloResources {
    pub controller: ResourceAddress,
    pub kyc: ResourceAddress,
    pub move_badge: ResourceAddress,
    pub hello: ResourceAddress,
}

/// Why a call is refused. A refused call changes nothing.
#[derive(Clone, Copy, Debug, PartialEq, Eq, Structural)]
pub enum HelloError {
    /// The token is of another resource than the component's.
    WrongResource,
    /// The vault already holds a token with that id.
    DuplicateToken,
    /// The vault is empty.
    Empty,
}

/// The component: its resources and the ids of the tokens in its vault.
pub struct Hello {
    resources: HelloResources,
    sample_vault: Vec<u64>,
}

impl Hello {
    pub closed spec fn res(&self) -> HelloResources {
        self.resources
    }

    /// The ids of the tokens in the vault.
    pub closed spec fn tokens(&self) -> Seq<u64> {
        self.sample_vault@
    }

    /// No id is twice in the vault.
    pub closed spec fn wf(&self) -> bool {
        self.sample_vault@.no_duplicates()
    }

    /// A component with an empty vault; the KYC badge goes to the caller.
    pub fn new(resources: HelloResources) -> (r: (Hello, Bucket))
        ensures
            r.0.wf(),
            r.0.res() == resources,
            r.0.tokens() == Seq::<u64>::empty(),
            r.1 == Bucket::spec_new(resources.kyc, whole(1)),
    {
        (Hello { resources, sample_vault: Vec::new() }, Bucket::of(resources.kyc, Decimal(1_000_000_000_000_000_000)))
    }

    /// Mints the token with the id `token_id`, with a proof of a move badge
    /// to deposit it.
    pub fn free_token(&self, token_id: u64) -> (r: (Option<NonFungible>, Proof))
        ensures
            r.0 == Some(NonFungible { resource: self.res().hello, id: token_id }),
            r.1 == (Proof { resource: self.res().move_badge, amount: whole(1) }),
    {
        (
            Some(NonFungible { resource: self.resources.hello, id: token_id }),
            Proof { resource: self.resources.move_badge, amount: Decimal(1_000_000_000_000_000_000) },
        )
    }

    /// Puts the token, if there is one, in the vault.
    pub fn deposit(&mut self, token: Option<NonFungible>) -> (r: Result<(), HelloError>)
        requires
            old(self).wf(),
        ensures
            final(self).wf(),
            final(self).res() == old(self).res(),
            r is Err ==> final(self).tokens() == old(self).tokens(),
            match token {
                None => r is Ok && final(self).tokens() == old(self).tokens(),
                Some(t) => if t.resource != old(self).res().hello {
                    r == Err::<(), HelloError>(HelloError::WrongResource)
                } else if old(self).tokens().contains(t.id) {
                    r == Err::<(), HelloError>(HelloError::DuplicateToken)
                } else {
                    r is Ok && final(self).tokens() == old(self).tokens().push(t.id)
                },
            },
    {
        let t = match token {
            None => return Ok(()),
            Some(t) => t,
        };
        if t.resource != self.resources.hello {
            return Err(HelloError::WrongResource);
        }
        let mut i: usize = 0;
        while i < self.sample_vault.len()
            invariant
                *self == *old(self),
                old(self).wf(),
                token == Some(t),
                t.resource == old(self).res().hello,
                i <= self.sample_vault@.len(),
                forall|j: int| 0 <= j < i ==> self.sample_vault@[j] != t.id,
            decreases self.sample_vault@.len() - i,
        {
            if self.sample_vault[i] == t.id {
                return Err(HelloError::DuplicateToken);
            }
            i = i + 1;
        }
        self.sample_vault.push(t.id);
        Ok(())
    }

    /// Takes one token out of the vault, with a proof of a move badge to
    /// deposit it.
    pub fn withdraw(&mut self) -> (r: Result<(Option<NonFungible>, Proof), HelloError>)
        requires
            old(self).wf(),
        ensures
            final(self).wf(),
            final(self).res() == old(self).res(),
            old(self).tokens().len() == 0 ==> r == Err::<(Option<NonFungible>, Proof), HelloError>(HelloError::Empty)
                && final(self).tokens() == old(self).tokens(),
            old(self).tokens().len() > 0 ==> (r matches Ok((Some(t), p)) && {
                &&& t.resource == old(self).res().hello
                &&& old(self).tokens().contains(t.id)
                &&& final(self).tokens().to_set() == old(self).tokens().to_set().remove(t.id)
                &&& final(self).tokens().len() + 1 == old(self).tokens().len()
                &&& p == (Proof { resource: old(self).res().move_badge, amount: whole(1) })
            }),
    {
        let id = match self.sample_vault.pop() {
            Some(id) => id,
            None => return Err(HelloError::Empty),
        };
        proof {
            let s = old(self).tokens();
            assert(s == self.sample_vault@.push(id));
            assert(s[s.len() - 1] == id);
            assert forall|x: u64| #[trigger] self.sample_vault@.to_set().contains(x) == s.to_set().remove(id).contains(x) by {
                if self.sample_vault@.contains(x) {
                    let j = choose|j: int| 0 <= j < self.sample_vault@.len() && self.sample_vault@[j] == x;
                    assert(s[j] == x);
                }
                if s.contains(x) && x != id {
                    let j = choose|j: int| 0 <= j < s.len() && s[j] == x;
                    assert(j != s.len() - 1);
                    assert(self.sample_vault@[j] == x);
                }
            }
            assert(self.sample_vault@.to_set() =~= s.to_set().remove(id));
        }
        Ok((
            Some(NonFungible { resource: self.resources.hello, id }),
            Proof { resource: self.resources.move_badge, amount: Decimal(1_000_000_000_000_000_000) },
        ))
    }
}

} // verus!
