use zk_shielded::errors::ZkShieldedError;
use zk_shielded::vkstore::VkDataAccount;

#[test]
fn test_init_vk_data_size_bounds() {
    assert_eq!(
        VkDataAccount::init_vk_data(451).err(),
        Some(ZkShieldedError::InvalidVerificationKey)
    );
    assert_eq!(
        VkDataAccount::init_vk_data(2049).err(),
        Some(ZkShieldedError::InvalidVerificationKey)
    );
    let acc = VkDataAccount::init_vk_data(452).unwrap();
    assert_eq!(acc.data.len(), 452);
    assert!(acc.data.iter().all(|&b| b == 0));
    let acc = VkDataAccount::init_vk_data(2048).unwrap();
    assert_eq!(acc.data.len(), 2048);
}

#[test]
fn test_write_vk_data_chunks() {
    let mut acc = VkDataAccount::init_vk_data(1000).unwrap();
    let chunk = vec![0xabu8; 800];
    acc.write_vk_data(0, &chunk).unwrap();
    assert_eq!(&acc.data[0..800], &chunk[..]);
    assert_eq!(&acc.data[800..1000], &[0u8; 200][..]);
    let tail = vec![0xcdu8; 200];
    acc.write_vk_data(800, &tail).unwrap();
    assert_eq!(&acc.data[800..1000], &tail[..]);
    assert_eq!(acc.data[799], 0xab);
}

#[test]
fn test_write_vk_data_rejects_oversized_chunk() {
    let mut acc = VkDataAccount::init_vk_data(2048).unwrap();
    let chunk = vec![0u8; 801];
    assert_eq!(
        acc.write_vk_data(0, &chunk),
        Err(ZkShieldedError::InvalidVerificationKey)
    );
}

#[test]
fn test_write_vk_data_rejects_out_of_bounds() {
    let mut acc = VkDataAccount::init_vk_data(452).unwrap();
    let chunk = vec![1u8; 100];
    assert_eq!(
        acc.write_vk_data(400, &chunk),
        Err(ZkShieldedError::InvalidVerificationKey)
    );
    assert!(acc.data.iter().all(|&b| b == 0));
}
