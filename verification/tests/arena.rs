use datum_allocator::allocator::{DatumAllocator, DatumAllocatorTrait, MAX_DATUM_ID};
use datum_allocator::datum::{Datum, DatumRef, ScriptError, VOID_DATUM_REF};

fn text(s: &str) -> Datum {
    Datum::String(s.to_string())
}

fn id_of(handle: DatumRef) -> u32 {
    match handle {
        DatumRef::Ref(id) => id,
        DatumRef::Void => panic!("expected a reference handle"),
    }
}

#[test]
fn a_new_arena_is_empty() {
    let arena = DatumAllocator::default();
    assert_eq!(arena.len(), 0);
    assert_eq!(arena.next_id(), 0);
    assert_eq!(arena.max_id(), MAX_DATUM_ID);
    assert_eq!(arena.max_id(), u32::MAX);
    assert!(!arena.contains(0));
    assert_eq!(arena.ref_count(0), None);
    assert!(!arena.at_ceiling());
}

#[test]
fn alloc_then_get_returns_the_value() {
    let mut arena = DatumAllocator::default();
    let h1 = arena.alloc_datum(text("x")).unwrap();
    let id1 = id_of(h1);
    assert_eq!(id1, 0);
    assert_eq!(h1, DatumRef::from_id(0));
    assert_eq!(arena.get_datum(&h1), &text("x"));
    assert_eq!(arena.ref_count(id1), Some(1));
    assert_eq!(arena.len(), 1);
    assert_eq!(arena.next_id(), 1);
}

#[test]
fn add_ref_and_two_drops_destroy_the_entry() {
    let mut arena = DatumAllocator::default();
    let h1 = arena.alloc_datum(text("x")).unwrap();
    let id1 = id_of(h1);
    arena.on_datum_ref_added(id1);
    assert_eq!(arena.ref_count(id1), Some(2));
    arena.on_datum_ref_dropped(id1);
    assert_eq!(arena.ref_count(id1), Some(1));
    assert!(arena.contains(id1));
    assert_eq!(arena.get_datum(&h1), &text("x"));
    arena.on_datum_ref_dropped(id1);
    assert_eq!(arena.ref_count(id1), None);
    assert!(!arena.contains(id1));
    assert_eq!(arena.len(), 0);
}

#[test]
fn the_empty_value_is_never_stored() {
    let mut arena = DatumAllocator::default();
    let a = arena.alloc_datum(Datum::Void).unwrap();
    let b = arena.alloc_datum(Datum::Void).unwrap();
    assert_eq!(a, VOID_DATUM_REF);
    assert_eq!(b, VOID_DATUM_REF);
    assert_eq!(a, b);
    assert_eq!(a, DatumRef::Void);
    assert_eq!(arena.len(), 0);
    assert_eq!(arena.next_id(), 0);
    assert_eq!(arena.get_datum(&a), &Datum::Void);
    let first = arena.alloc_datum(Datum::Int(1)).unwrap();
    assert_eq!(first, DatumRef::Ref(0));
}

#[test]
fn the_search_from_the_low_end_finds_the_freed_identifier() {
    let mut arena = DatumAllocator::with_max_id(5);
    for expected in 0..5u32 {
        assert!(!arena.at_ceiling());
        let handle = arena.alloc_datum(Datum::Int(expected as i32)).unwrap();
        assert_eq!(handle, DatumRef::Ref(expected));
    }
    assert_eq!(arena.next_id(), 5);
    assert_eq!(arena.len(), 5);
    assert!(arena.at_ceiling());
    arena.on_datum_ref_dropped(1);
    assert!(!arena.contains(1));
    assert!(arena.at_ceiling());
    let handle = arena.alloc_datum(text("again")).unwrap();
    assert_eq!(handle, DatumRef::Ref(1));
    assert_eq!(arena.get_datum(&handle), &text("again"));
    assert_eq!(arena.ref_count(1), Some(1));
    assert_eq!(arena.next_id(), 5);
    assert_eq!(arena.len(), 5);
}

#[test]
fn the_search_takes_the_lowest_of_several_free_identifiers() {
    let mut arena = DatumAllocator::with_max_id(6);
    for _ in 0..6 {
        arena.alloc_datum(Datum::Int(0)).unwrap();
    }
    arena.on_datum_ref_dropped(4);
    arena.on_datum_ref_dropped(0);
    arena.on_datum_ref_dropped(2);
    assert_eq!(arena.alloc_datum(Datum::Int(1)).unwrap(), DatumRef::Ref(0));
    assert_eq!(arena.alloc_datum(Datum::Int(2)).unwrap(), DatumRef::Ref(2));
    assert_eq!(arena.alloc_datum(Datum::Int(3)).unwrap(), DatumRef::Ref(4));
    assert!(arena.alloc_datum(Datum::Int(4)).is_err());
}

#[test]
fn reset_of_an_empty_arena_rewinds_the_counter() {
    let mut arena = DatumAllocator::default();
    let h = arena.alloc_datum(Datum::Int(7)).unwrap();
    arena.on_datum_ref_dropped(id_of(h));
    assert_eq!(arena.len(), 0);
    assert_eq!(arena.next_id(), 1);
    arena.reset();
    assert_eq!(arena.len(), 0);
    assert_eq!(arena.next_id(), 0);
    let again = arena.alloc_datum(Datum::Int(8)).unwrap();
    let mut fresh = DatumAllocator::default();
    let first = fresh.alloc_datum(Datum::Int(8)).unwrap();
    assert_eq!(again, first);
    assert_eq!(again, DatumRef::Ref(0));
}

#[test]
fn reset_destroys_every_entry() {
    let mut arena = DatumAllocator::default();
    for i in 0..10 {
        arena.alloc_datum(Datum::Int(i)).unwrap();
    }
    arena.on_datum_ref_added(3);
    assert_eq!(arena.len(), 10);
    arena.reset();
    assert_eq!(arena.len(), 0);
    for id in 0..10u32 {
        assert!(!arena.contains(id));
    }
    assert_eq!(arena.max_id(), u32::MAX);
    let h = arena.alloc_datum(text("new")).unwrap();
    assert_eq!(h, DatumRef::Ref(0));
    assert_eq!(arena.ref_count(0), Some(1));
    assert_eq!(arena.get_datum(&h), &text("new"));
}

#[test]
fn a_full_arena_reports_exhaustion() {
    let mut arena = DatumAllocator::with_max_id(3);
    for _ in 0..3 {
        arena.alloc_datum(Datum::Int(1)).unwrap();
    }
    let result = arena.alloc_datum(Datum::Int(2));
    assert_eq!(result, Err(ScriptError::new("Failed to allocate datum".to_string())));
    assert_eq!(result.unwrap_err().message, "Failed to allocate datum");
    assert_eq!(arena.len(), 3);
    assert_eq!(arena.next_id(), 3);
    for id in 0..3u32 {
        assert_eq!(arena.ref_count(id), Some(1));
        assert_eq!(arena.get_datum(&DatumRef::Ref(id)), &Datum::Int(1));
    }
    assert_eq!(arena.alloc_datum(Datum::Void), Ok(DatumRef::Void));
}

#[test]
fn an_arena_without_identifiers_stores_nothing() {
    let mut arena = DatumAllocator::with_max_id(0);
    assert!(arena.at_ceiling());
    assert!(arena.alloc_datum(Datum::Int(1)).is_err());
    assert_eq!(arena.alloc_datum(Datum::Void), Ok(VOID_DATUM_REF));
    assert_eq!(arena.len(), 0);
}

#[test]
fn the_top_of_the_space_is_never_assigned() {
    let mut arena = DatumAllocator::with_max_id(2);
    assert_eq!(arena.alloc_datum(Datum::Int(1)).unwrap(), DatumRef::Ref(0));
    assert_eq!(arena.alloc_datum(Datum::Int(2)).unwrap(), DatumRef::Ref(1));
    assert_eq!(arena.next_id(), 2);
    assert!(arena.alloc_datum(Datum::Int(3)).is_err());
    assert!(!arena.contains(2));
    assert_eq!(arena.next_id(), 2);
}

#[test]
fn live_handles_never_share_an_identifier() {
    let mut arena = DatumAllocator::with_max_id(8);
    let mut live: Vec<u32> = Vec::new();
    for round in 0..40u32 {
        if round % 3 == 2 {
            let id = live.remove((round as usize * 5) % live.len());
            arena.on_datum_ref_dropped(id);
            assert!(!arena.contains(id));
        } else {
            match arena.alloc_datum(Datum::Int(round as i32)) {
                Ok(handle) => {
                    let id = id_of(handle);
                    assert!(id < 8);
                    assert!(!live.contains(&id));
                    live.push(id);
                }
                Err(_) => assert_eq!(live.len(), 8),
            }
        }
        assert_eq!(arena.len(), live.len());
        for id in &live {
            assert_eq!(arena.ref_count(*id), Some(1));
        }
    }
}

#[test]
fn a_reused_identifier_carries_nothing_over() {
    let mut arena = DatumAllocator::with_max_id(2);
    let a = arena.alloc_datum(text("old")).unwrap();
    arena.alloc_datum(Datum::Int(0)).unwrap();
    let id = id_of(a);
    arena.on_datum_ref_added(id);
    arena.on_datum_ref_added(id);
    assert_eq!(arena.ref_count(id), Some(3));
    arena.on_datum_ref_dropped(id);
    arena.on_datum_ref_dropped(id);
    arena.on_datum_ref_dropped(id);
    assert!(!arena.contains(id));
    let b = arena.alloc_datum(Datum::Int(42)).unwrap();
    assert_eq!(id_of(b), id);
    assert_eq!(arena.ref_count(id), Some(1));
    assert_eq!(arena.get_datum(&b), &Datum::Int(42));
}

#[test]
fn counts_go_up_and_down_by_one() {
    let mut arena = DatumAllocator::default();
    let a = id_of(arena.alloc_datum(Datum::Int(1)).unwrap());
    let b = id_of(arena.alloc_datum(Datum::Int(2)).unwrap());
    for expected in 2..=5u32 {
        arena.on_datum_ref_added(a);
        assert_eq!(arena.ref_count(a), Some(expected));
        assert_eq!(arena.ref_count(b), Some(1));
    }
    for expected in (1..=4u32).rev() {
        arena.on_datum_ref_dropped(a);
        assert_eq!(arena.ref_count(a), Some(expected));
    }
    arena.on_datum_ref_dropped(a);
    assert_eq!(arena.ref_count(a), None);
    assert_eq!(arena.ref_count(b), Some(1));
    assert_eq!(arena.get_datum(&DatumRef::Ref(b)), &Datum::Int(2));
    assert_eq!(arena.len(), 1);
}

#[test]
fn get_datum_mut_replaces_only_the_value() {
    let mut arena = DatumAllocator::default();
    let a = arena.alloc_datum(text("a")).unwrap();
    let b = arena.alloc_datum(text("b")).unwrap();
    arena.on_datum_ref_added(id_of(a));
    *arena.get_datum_mut(&a) = Datum::List(vec![b, DatumRef::Void]);
    assert_eq!(arena.get_datum(&a), &Datum::List(vec![DatumRef::Ref(1), DatumRef::Void]));
    assert_eq!(arena.get_datum(&b), &text("b"));
    assert_eq!(arena.ref_count(id_of(a)), Some(2));
    assert_eq!(arena.ref_count(id_of(b)), Some(1));
    assert_eq!(arena.len(), 2);
    assert_eq!(arena.next_id(), 2);
}

#[test]
fn the_empty_slot_is_shared_by_every_empty_handle() {
    let mut arena = DatumAllocator::default();
    assert_eq!(arena.get_datum(&VOID_DATUM_REF), &Datum::Void);
    assert_eq!(arena.get_datum_mut(&DatumRef::Void), &mut Datum::Void);
    *arena.get_datum_mut(&DatumRef::Void) = Datum::Int(3);
    assert_eq!(arena.get_datum(&VOID_DATUM_REF), &Datum::Int(3));
    assert_eq!(arena.len(), 0);
    arena.reset();
    assert_eq!(arena.get_datum(&VOID_DATUM_REF), &Datum::Int(3));
}

#[test]
fn handles_and_values_tell_what_they_are() {
    assert!(Datum::Void.is_void());
    assert!(!Datum::Int(0).is_void());
    assert!(!text("").is_void());
    assert!(!Datum::List(Vec::new()).is_void());
    assert_eq!(DatumRef::from_id(9), DatumRef::Ref(9));
    assert_eq!(DatumRef::from_id(9).id(), Some(9));
    assert_eq!(VOID_DATUM_REF.id(), None);
    assert_eq!(ScriptError::new("m".to_string()).message, "m");
}

#[test]
fn the_arena_serves_through_its_trait() {
    fn store_twice<A: DatumAllocatorTrait>(arena: &mut A) -> (DatumRef, DatumRef) {
        let a = arena.alloc_datum(Datum::Int(1)).unwrap();
        let b = arena.alloc_datum(Datum::Int(2)).unwrap();
        (a, b)
    }
    let mut arena = DatumAllocator::default();
    let (a, b) = store_twice(&mut arena);
    assert_ne!(a, b);
    assert_eq!(arena.get_datum(&a), &Datum::Int(1));
    assert_eq!(arena.get_datum(&b), &Datum::Int(2));
}
