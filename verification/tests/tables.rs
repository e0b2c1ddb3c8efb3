use guest_rt::slab::Slab;
use guest_rt::{GuestError, IndexSlab, ResourceSlab};

#[test]
fn slab_inserts_yield_distinct_indices() {
    let mut slab: Slab<u64> = Slab::new();
    let mut indices = Vec::new();
    for v in 0..50u64 {
        indices.push(slab.insert(v));
    }
    for j in 0..indices.len() {
        for k in (j + 1)..indices.len() {
            assert_ne!(indices[j], indices[k]);
        }
    }
    for (v, idx) in indices.iter().enumerate() {
        assert_eq!(slab.get(*idx), Some(&(v as u64)));
    }
}

#[test]
fn slab_get_after_remove_is_not_found_never_stale() {
    let mut slab: Slab<&str> = Slab::new();
    let a = slab.insert("first");
    let b = slab.insert("second");
    assert_eq!(slab.remove(a), Some("first"));
    assert_eq!(slab.get(a), None);
    assert_eq!(slab.get(b), Some(&"second"));
    // a second removal of the same index is not found either
    assert_eq!(slab.remove(a), None);
}

#[test]
fn slab_may_reuse_a_freed_position_for_a_new_insertion() {
    let mut slab: Slab<u32> = Slab::new();
    let a = slab.insert(10);
    let _b = slab.insert(20);
    assert_eq!(slab.remove(a), Some(10));
    let c = slab.insert(30);
    assert_eq!(c, a);
    assert_eq!(slab.get(c), Some(&30));
}

#[test]
fn slab_set_replaces_the_value_in_a_live_slot() {
    let mut slab: Slab<u32> = Slab::new();
    let i = slab.insert(1);
    slab.set(i, 5);
    assert_eq!(slab.get(i), Some(&5));
}

#[test]
fn resource_payload_returned_exactly_once_on_final_drop() {
    let mut table = ResourceSlab::default();
    let idx = table.insert(42);
    let k = 5;
    for _ in 0..k {
        assert_eq!(table.clone(idx), Ok(()));
    }
    for _ in 0..k {
        assert_eq!(table.drop(idx), None);
    }
    assert_eq!(table.drop(idx), Some(42));
}

#[test]
fn resource_drop_without_clone_returns_payload_at_once() {
    let mut table = ResourceSlab::default();
    let idx = table.insert(-7);
    assert_eq!(table.get(idx), -7);
    assert_eq!(table.drop(idx), Some(-7));
}

#[test]
fn resource_table_tracks_entries_independently() {
    let mut table = ResourceSlab::default();
    let a = table.insert(1);
    let b = table.insert(2);
    assert_eq!(table.clone(a), Ok(()));
    assert_eq!(table.drop(b), Some(2));
    assert_eq!(table.drop(a), None);
    assert_eq!(table.get(a), 1);
    assert_eq!(table.drop(a), Some(1));
}

#[test]
fn handle_table_maps_guest_handles_to_resource_indices() {
    let mut resources = ResourceSlab::default();
    let ra = resources.insert(100);
    let rb = resources.insert(200);
    let mut handles = IndexSlab::default();
    let ha = handles.insert(ra);
    let hb = handles.insert(rb);
    assert_ne!(ha, hb);
    let back_a = handles.get(ha).expect("live handle");
    assert_eq!(resources.get(back_a), 100);
    let back_b = handles.remove(hb).expect("live handle");
    assert_eq!(resources.get(back_b), 200);
    assert_eq!(handles.remove(hb), Err(GuestError::InvalidHandleIndex));
}

#[test]
fn dead_handle_is_a_distinct_guest_facing_error() {
    let mut handles = IndexSlab::default();
    assert_eq!(handles.get(0), Err(GuestError::InvalidHandleIndex));
    assert_eq!(handles.remove(3), Err(GuestError::InvalidHandleIndex));
    let mut resources = ResourceSlab::default();
    let r = resources.insert(5);
    let h = handles.insert(r);
    assert_eq!(handles.remove(h).is_ok(), true);
    assert_eq!(handles.get(h), Err(GuestError::InvalidHandleIndex));
}
