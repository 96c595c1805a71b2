use universal_machine::fault::Fault;
use universal_machine::memory::Memory;

#[test]
fn fresh_memory_holds_an_empty_program_only() {
    let memory = Memory::new();
    assert!(memory.is_live(0));
    assert!(!memory.is_live(1));
    assert!(!memory.is_live(u32::MAX));
    assert_eq!(memory.segment(0).unwrap(), &Vec::<u32>::new());
    assert_eq!(memory.read(0, 0), Err(Fault::OutOfBoundsIndex));
}

#[test]
fn fresh_handles_count_up_from_one() {
    let mut memory = Memory::new();
    assert_eq!(memory.allocate(3), Ok(1));
    assert_eq!(memory.allocate(0), Ok(2));
    assert_eq!(memory.allocate(7), Ok(3));
    assert!(memory.is_live(1) && memory.is_live(2) && memory.is_live(3));
    assert!(!memory.is_live(4));
}

#[test]
fn allocated_segment_is_zero_filled() {
    let mut memory = Memory::new();
    let handle = memory.allocate(5).unwrap();
    assert_eq!(memory.segment(handle).unwrap(), &vec![0u32; 5]);
    let empty = memory.allocate(0).unwrap();
    assert_eq!(memory.segment(empty).unwrap().len(), 0);
}

#[test]
fn write_then_read() {
    let mut memory = Memory::new();
    let handle = memory.allocate(4).unwrap();
    assert_eq!(memory.write(handle, 2, 0xDEAD_BEEF), Ok(()));
    assert_eq!(memory.read(handle, 2), Ok(0xDEAD_BEEF));
    assert_eq!(memory.read(handle, 0), Ok(0));
    assert_eq!(memory.read(handle, 3), Ok(0));
    assert_eq!(memory.segment(handle).unwrap(), &vec![0, 0, 0xDEAD_BEEF, 0]);
}

#[test]
fn access_past_the_end_is_out_of_bounds() {
    let mut memory = Memory::new();
    let handle = memory.allocate(4).unwrap();
    assert_eq!(memory.read(handle, 4), Err(Fault::OutOfBoundsIndex));
    assert_eq!(memory.read(handle, u32::MAX), Err(Fault::OutOfBoundsIndex));
    assert_eq!(memory.write(handle, 4, 1), Err(Fault::OutOfBoundsIndex));
    assert_eq!(memory.segment(handle).unwrap(), &vec![0u32; 4]);
}

#[test]
fn access_through_a_dead_handle_is_invalid() {
    let mut memory = Memory::new();
    assert_eq!(memory.read(1, 0), Err(Fault::InvalidHandle));
    assert_eq!(memory.write(1, 0, 9), Err(Fault::InvalidHandle));
    assert_eq!(memory.replace_segment(1, vec![1]), Err(Fault::InvalidHandle));
    let handle = memory.allocate(2).unwrap();
    assert_eq!(memory.free(handle), Ok(()));
    assert!(!memory.is_live(handle));
    assert_eq!(memory.read(handle, 0), Err(Fault::InvalidHandle));
    assert_eq!(memory.write(handle, 0, 9), Err(Fault::InvalidHandle));
}

#[test]
fn handle_zero_cannot_be_given_up() {
    let mut memory = Memory::new();
    assert_eq!(memory.free(0), Err(Fault::InvalidHandle));
    assert!(memory.is_live(0));
}

#[test]
fn a_handle_cannot_be_given_up_twice() {
    let mut memory = Memory::new();
    let handle = memory.allocate(1).unwrap();
    assert_eq!(memory.free(handle), Ok(()));
    assert_eq!(memory.free(handle), Err(Fault::InvalidHandle));
    assert_eq!(memory.free(99), Err(Fault::InvalidHandle));
    // the handle waits once only: after it is reused the next one is fresh
    assert_eq!(memory.allocate(1), Ok(handle));
    assert_eq!(memory.allocate(1), Ok(handle + 1));
}

#[test]
fn allocate_abandon_allocate_returns_the_same_handle_zeroed() {
    let mut memory = Memory::new();
    let first = memory.allocate(4).unwrap();
    for i in 0..4 {
        assert_eq!(memory.write(first, i, 0xFFFF_FFFF - i), Ok(()));
    }
    assert_eq!(memory.free(first), Ok(()));
    let second = memory.allocate(4).unwrap();
    assert_eq!(second, first);
    assert_eq!(memory.segment(second).unwrap(), &vec![0u32; 4]);
}

#[test]
fn reused_handle_is_zeroed_whatever_the_new_size() {
    let mut memory = Memory::new();
    let handle = memory.allocate(4).unwrap();
    for i in 0..4 {
        memory.write(handle, i, 7).unwrap();
    }
    memory.free(handle).unwrap();
    assert_eq!(memory.allocate(2), Ok(handle));
    assert_eq!(memory.segment(handle).unwrap(), &vec![0u32; 2]);
    memory.write(handle, 1, 7).unwrap();
    memory.free(handle).unwrap();
    assert_eq!(memory.allocate(6), Ok(handle));
    assert_eq!(memory.segment(handle).unwrap(), &vec![0u32; 6]);
}

#[test]
fn retired_handles_come_back_oldest_first() {
    let mut memory = Memory::new();
    let a = memory.allocate(1).unwrap();
    let b = memory.allocate(1).unwrap();
    let c = memory.allocate(1).unwrap();
    assert_eq!((a, b, c), (1, 2, 3));
    memory.free(b).unwrap();
    memory.free(a).unwrap();
    assert_eq!(memory.allocate(1), Ok(b));
    assert_eq!(memory.allocate(1), Ok(a));
    assert_eq!(memory.allocate(1), Ok(4));
    assert!(memory.is_live(c));
}

#[test]
fn with_two_handles_waiting_the_older_one_is_reused_first() {
    let mut memory = Memory::new();
    let a = memory.allocate(1).unwrap();
    let b = memory.allocate(1).unwrap();
    memory.free(a).unwrap();
    memory.free(b).unwrap();
    // allocate, abandon, allocate: the second allocation takes the handle
    // that has waited longer, not the one just given up
    let first = memory.allocate(1).unwrap();
    assert_eq!(first, a);
    memory.free(first).unwrap();
    assert_eq!(memory.allocate(1), Ok(b));
}

#[test]
fn replace_segment_discards_the_old_content() {
    let mut memory = Memory::new();
    assert_eq!(memory.replace_segment(0, vec![1, 2, 3, 4, 5]), Ok(()));
    assert_eq!(memory.segment(0).unwrap(), &vec![1, 2, 3, 4, 5]);
    assert_eq!(memory.replace_segment(0, vec![9]), Ok(()));
    assert_eq!(memory.segment(0).unwrap(), &vec![9]);
    assert_eq!(memory.read(0, 1), Err(Fault::OutOfBoundsIndex));
    let handle = memory.allocate(3).unwrap();
    assert_eq!(memory.replace_segment(handle, vec![4, 5]), Ok(()));
    assert_eq!(memory.segment(handle).unwrap(), &vec![4, 5]);
    assert_eq!(memory.segment(0).unwrap(), &vec![9]);
}

#[test]
fn segment_mut_changes_one_segment_only() {
    let mut memory = Memory::new();
    let a = memory.allocate(2).unwrap();
    let b = memory.allocate(2).unwrap();
    memory.segment_mut(a).unwrap()[1] = 5;
    memory.segment_mut(0).unwrap().push(8);
    assert_eq!(memory.segment(a).unwrap(), &vec![0, 5]);
    assert_eq!(memory.segment(b).unwrap(), &vec![0, 0]);
    assert_eq!(memory.segment(0).unwrap(), &vec![8]);
}

#[test]
fn operations_that_fail_change_nothing() {
    let mut memory = Memory::new();
    let a = memory.allocate(2).unwrap();
    memory.write(a, 0, 3).unwrap();
    assert!(memory.write(a, 2, 1).is_err());
    assert!(memory.write(a + 1, 0, 1).is_err());
    assert!(memory.free(a + 1).is_err());
    assert!(memory.free(0).is_err());
    assert_eq!(memory.segment(a).unwrap(), &vec![3, 0]);
    assert_eq!(memory.allocate(1), Ok(a + 1));
}

#[test]
fn segment_of_a_dead_handle_is_invalid() {
    let mut memory = Memory::new();
    assert_eq!(memory.segment(1), Err(Fault::InvalidHandle));
    assert_eq!(memory.segment(u32::MAX), Err(Fault::InvalidHandle));
    let handle = memory.allocate(2).unwrap();
    memory.write(handle, 0, 9).unwrap();
    assert_eq!(memory.segment(handle), Ok(&vec![9, 0]));
    memory.free(handle).unwrap();
    assert_eq!(memory.segment(handle), Err(Fault::InvalidHandle));
    assert_eq!(memory.segment(0), Ok(&vec![]));
}

#[test]
fn segment_mut_of_a_dead_handle_changes_nothing() {
    let mut memory = Memory::new();
    assert_eq!(memory.segment_mut(1), Err(Fault::InvalidHandle));
    let a = memory.allocate(2).unwrap();
    let b = memory.allocate(1).unwrap();
    memory.free(a).unwrap();
    assert_eq!(memory.segment_mut(a), Err(Fault::InvalidHandle));
    assert_eq!(memory.segment_mut(b + 1), Err(Fault::InvalidHandle));
    assert!(!memory.is_live(a));
    assert_eq!(memory.segment(b), Ok(&vec![0]));
    // the handle given up still waits, once
    assert_eq!(memory.allocate(3), Ok(a));
    assert_eq!(memory.allocate(3), Ok(b + 1));
}
