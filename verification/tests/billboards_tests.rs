use aethervk_device::billboards::{BillboardError, BillboardSlots};

#[test]
fn textures_get_consecutive_slots() {
    let mut b: BillboardSlots<&str> = BillboardSlots::new();
    assert_eq!(b.check_texture_id(0), Err(BillboardError::UnknownTexture(0)));
    let first = b.reserve();
    let second = b.reserve();
    assert_eq!((first, second), (0, 1));
    b.fill(second, "moon");
    assert_eq!(b.slots, vec![None, Some("moon")]);
    assert_eq!(b.check_texture_id(1), Ok(()));
    assert_eq!(b.check_texture_id(2), Err(BillboardError::UnknownTexture(2)));
}
