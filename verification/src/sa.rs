//! Security Association: the identifier and master key material shared by
//! both ends of one logical secure channel epoch.

use vstd::prelude::*;

verus! {

/// Key/identifier state for one secure channel. Created out of band (the
/// handshake that agrees on `master_secret` is outside this core) and
/// superseded by a fresh epoch when the rekey policy fires.
#[derive(Debug)]
pub struct SecurityAssociation {
    /// Security Parameter Index: selects which association a frame belongs to.
    pub spi: u32,
    /// Externally supplied shared master secret; all traffic keys are
    /// derived from it.
    pub master_secret: Vec<u8>,
    /// Incremented each time the association is rekeyed.
    pub epoch: u32,
}

/// Copies a byte vector element for element.
pub fn clone_bytes(v: &Vec<u8>) -> (r: Vec<u8>)
    ensures
        r@ == v@,
{
    let mut r: Vec<u8> = Vec::new();
    let mut i: usize = 0;
    while i < v.len()
        invariant
            i <= v@.len(),
            r@ == v@.subrange(0, i as int),
        decreases v@.len() - i,
    {
        r.push(v[i]);
        i = i + 1;
        proof {
            assert(r@ =~= v@.subrange(0, i as int));
        }
    }
    proof {
        assert(r@ =~= v@);
    }
    r
}

impl SecurityAssociation {
    /// A fresh association at epoch 0 for the given identifier and shared
    /// master secret.
    pub fn new(spi: u32, master_secret: Vec<u8>) -> (sa: Self)
        ensures
            sa.spi == spi,
            sa.master_secret@ == master_secret@,
            sa.epoch == 0,
    {
        SecurityAssociation { spi, master_secret, epoch: 0 }
    }

    /// The association that supersedes this one after a completed rekey:
    /// same identifier and master secret, next epoch.
    pub fn next_epoch(&self) -> (sa: Self)
        requires
            self.epoch < u32::MAX,
        ensures
            sa.spi == self.spi,
            sa.master_secret@ == self.master_secret@,
            sa.epoch == self.epoch + 1,
    {
        SecurityAssociation {
            spi: self.spi,
            master_secret: clone_bytes(&self.master_secret),
            epoch: self.epoch + 1,
        }
    }
}

impl Clone for SecurityAssociation {
    /// An exact copy: every derived key of the copy equals the original's.
    fn clone(&self) -> (sa: Self)
        ensures
            sa.spi == self.spi,
            sa.master_secret@ == self.master_secret@,
            sa.epoch == self.epoch,
    {
        SecurityAssociation {
            spi: self.spi,
            master_secret: clone_bytes(&self.master_secret),
            epoch: self.epoch,
        }
    }
}

} // verus!
