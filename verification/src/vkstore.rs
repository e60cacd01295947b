//! The verification-key store: a flat byte blob of configurable length,
//! uploaded incrementally in bounded chunks at declared offsets and
//! content-addressed by its Keccak-256 hash.

use vstd::prelude::*;

use crate::errors::ZkShieldedError;

verus! {

/// Maximum VK blob size in bytes.
pub const MAX_VK_SIZE: u32 = 2048;

/// Minimum VK blob size in bytes: the four fixed points and the count prefix.
pub const MIN_VK_SIZE: u32 = 452;

/// Maximum chunk size per write.
pub const MAX_CHUNK_SIZE: usize = 800;

/// A program-owned account holding the verification-key bytes.
pub struct VkDataAccount {
    /// The VK bytes; the account is exactly as long as it was declared.
    pub data: Vec<u8>,
}

impl VkDataAccount {
    /// Create a zeroed account of exactly `vk_size` bytes; sizes outside
    /// `[452, 2048]` are refused.
    pub fn init_vk_data(vk_size: u32) -> (r: Result<VkDataAccount, ZkShieldedError>)
        ensures
            match r {
                Ok(acc) => {
                    &&& MIN_VK_SIZE <= vk_size <= MAX_VK_SIZE
                    &&& acc.data@.len() == vk_size
                    &&& forall|i: int| 0 <= i < vk_size ==> acc.data@[i] == 0u8
                },
                Err(e) => {
                    &&& (vk_size < MIN_VK_SIZE || vk_size > MAX_VK_SIZE)
                    &&& e == ZkShieldedError::InvalidVerificationKey
                },
            },
    {
        if vk_size < MIN_VK_SIZE || vk_size > MAX_VK_SIZE {
            return Err(ZkShieldedError::InvalidVerificationKey);
        }
        let mut data: Vec<u8> = Vec::new();
        let mut i: u32 = 0;
        while i < vk_size
            invariant
                i <= vk_size,
                data@.len() == i,
                forall|j: int| 0 <= j < i ==> data@[j] == 0u8,
            decreases vk_size - i,
        {
            data.push(0u8);
            i = i + 1;
        }
        Ok(VkDataAccount { data })
    }

    /// Copy `chunk` into `[offset, offset + chunk.len())`. A chunk longer
    /// than the limit, or one that does not fit in the account, is refused
    /// and the account is untouched.
    pub fn write_vk_data(&mut self, offset: u32, chunk: &Vec<u8>) -> (r: Result<
        (),
        ZkShieldedError,
    >)
        ensures
            final(self).data@.len() == old(self).data@.len(),
            match r {
                Ok(()) => {
                    &&& chunk@.len() <= MAX_CHUNK_SIZE
                    &&& offset + chunk@.len() <= old(self).data@.len()
                    &&& final(self).data@ == old(self).data@.subrange(0, offset as int) + chunk@
                        + old(self).data@.subrange(
                        offset + chunk@.len(),
                        old(self).data@.len() as int,
                    )
                },
                Err(e) => {
                    &&& (chunk@.len() > MAX_CHUNK_SIZE || offset + chunk@.len() > old(
                        self,
                    ).data@.len())
                    &&& e == ZkShieldedError::InvalidVerificationKey
                    &&& *final(self) == *old(self)
                },
            },
    {
        if chunk.len() > MAX_CHUNK_SIZE {
            return Err(ZkShieldedError::InvalidVerificationKey);
        }
        let off = offset as usize;
        if off > self.data.len() || self.data.len() - off < chunk.len() {
            return Err(ZkShieldedError::InvalidVerificationKey);
        }
        let ghost data0 = self.data@;
        let mut i: usize = 0;
        while i < chunk.len()
            invariant
                i <= chunk@.len(),
                off == offset,
                off + chunk@.len() <= self.data@.len(),
                self.data@.len() <= usize::MAX,
                self.data@.len() == data0.len(),
                forall|j: int| 0 <= j < off ==> self.data@[j] == data0[j],
                forall|j: int| 0 <= j < i ==> self.data@[off + j] == chunk@[j],
                forall|j: int| off + chunk@.len() <= j < data0.len() ==> self.data@[j] == data0[j],
            decreases chunk@.len() - i,
        {
            self.data[off + i] = chunk[i];
            i = i + 1;
        }
        proof {
            assert(self.data@ =~= data0.subrange(0, offset as int) + chunk@ + data0.subrange(
                offset + chunk@.len(),
                data0.len() as int,
            ));
        }
        Ok(())
    }
}

} // verus!
