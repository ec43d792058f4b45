use aethervk_device::archetypes::{ArchetypeId, ArchetypeShaders, Archetypes};
use aethervk_device::discardables::Discardables;
use aethervk_device::pipelines::{GraphicsInfo, PipelinePool};
use aethervk_device::resources::ResourceTable;

fn engine_with_grid() -> Archetypes {
    let mut a = Archetypes::new();
    let mut pool = PipelinePool::new(7);
    let make = |_cache: u64, _g: &GraphicsInfo| -> Result<u64, i32> { Ok(1) };
    let shaders = ArchetypeShaders { vertex_module: 1, fragment_module: 2, outline: None };
    assert_eq!(a.create_archetype(&mut pool, ArchetypeId::Grid, shaders, 44, 129, 3, |_c: i32, _d: i32| Ok(6), &make), Ok(()));
    a
}

#[test]
fn nothing_to_discard_on_an_empty_device() {
    let d: Discardables<u32, u32, u32> =
        Discardables::new(vec![Archetypes::new()], ResourceTable::new(), ResourceTable::new(), vec![], Some(5));
    assert!(!d.has_discardables());
}

#[test]
fn clearing_hands_everything_over_and_leaves_nothing() {
    let mut meshes: ResourceTable<u32> = ResourceTable::new();
    meshes.claim(1);
    meshes.commit_ready(1, 100);
    meshes.claim(2);
    let suns: ResourceTable<u32> = ResourceTable::new();
    let mut d = Discardables::new(
        vec![Archetypes::new(), engine_with_grid()],
        meshes,
        suns,
        vec![Some(7u32), None, Some(9)],
        Some(11),
    );
    assert!(d.has_discardables());
    let released = d.clear_discardables();
    assert_eq!(released.archetypes.len(), 1);
    assert_eq!(released.meshes, vec![100]);
    assert!(released.suns.is_empty());
    assert_eq!(released.images, vec![7, 9, 11]);
    assert!(!d.has_discardables());
    let again = d.clear_discardables();
    assert!(again.archetypes.is_empty() && again.meshes.is_empty() && again.images.is_empty());
}

#[test]
fn billboard_slots_alone_count_as_discardable() {
    let d: Discardables<u32, u32, u32> =
        Discardables::new(vec![], ResourceTable::new(), ResourceTable::new(), vec![None], None);
    assert!(d.has_discardables());
}
