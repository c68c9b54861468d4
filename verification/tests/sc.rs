use js_boundary::sc::{StructuredCloneBuffer, StructuredCloneScope};

#[test]
fn construct_and_release() {
    let buffer = StructuredCloneBuffer::new(StructuredCloneScope::SameProcessSameThread);
    assert_eq!(buffer.len(), 0);
    drop(buffer);
}

#[test]
fn new_buffer_is_empty_and_keeps_scope() {
    let buffer = StructuredCloneBuffer::new(StructuredCloneScope::DifferentProcess);
    assert_eq!(buffer.scope(), StructuredCloneScope::DifferentProcess);
    assert!(buffer.data().is_empty());
    assert_eq!(buffer.copy_to_vec(), Vec::<u8>::new());
}

#[test]
fn copy_has_length_of_data_after_write() {
    let mut buffer = StructuredCloneBuffer::new(StructuredCloneScope::SameProcessDifferentThread);
    assert!(buffer.write(Some(vec![1, 2, 3, 4, 5, 6, 7, 8])));
    let copy = buffer.copy_to_vec();
    assert_eq!(copy.len(), buffer.len());
    assert_eq!(copy.len(), 8);
    assert_eq!(copy, vec![1, 2, 3, 4, 5, 6, 7, 8]);
    assert_eq!(buffer.data(), &copy[..]);
}

#[test]
fn copy_is_independent_of_buffer() {
    let mut buffer = StructuredCloneBuffer::new(StructuredCloneScope::SameProcessSameThread);
    assert!(buffer.write_bytes(&[9, 8]));
    let mut copy = buffer.copy_to_vec();
    copy.push(7);
    assert_eq!(buffer.data(), &[9, 8]);
    drop(buffer);
    assert_eq!(copy, vec![9, 8, 7]);
}

#[test]
fn write_replaces_contents() {
    let mut buffer = StructuredCloneBuffer::new(StructuredCloneScope::SameProcessSameThread);
    assert!(buffer.write_bytes(&[1, 2, 3]));
    assert!(buffer.write(Some(vec![4, 5])));
    assert_eq!(buffer.data(), &[4, 5]);
    assert_eq!(buffer.scope(), StructuredCloneScope::SameProcessSameThread);
}

#[test]
fn failed_write_reports_failure_and_keeps_contents() {
    let mut buffer = StructuredCloneBuffer::new(StructuredCloneScope::SameProcessSameThread);
    assert!(buffer.write(Some(vec![4, 5])));
    assert!(!buffer.write(None));
    assert_eq!(buffer.data(), &[4, 5]);
}

#[test]
fn appending_nothing_succeeds_and_changes_nothing() {
    let mut buffer = StructuredCloneBuffer::new(StructuredCloneScope::SameProcessSameThread);
    assert!(buffer.write_bytes(&[]));
    assert_eq!(buffer.len(), 0);
    assert!(buffer.write_bytes(&[1, 2]));
    assert!(buffer.write_bytes(&[]));
    assert_eq!(buffer.data(), &[1, 2]);
}

#[test]
fn appended_bytes_follow_what_was_there() {
    let mut buffer = StructuredCloneBuffer::new(StructuredCloneScope::SameProcessSameThread);
    assert!(buffer.write_bytes(&[1, 2]));
    assert!(buffer.write_bytes(&[3]));
    assert!(buffer.write_bytes(&[4, 5, 6]));
    assert_eq!(buffer.copy_to_vec(), vec![1, 2, 3, 4, 5, 6]);
    assert_eq!(buffer.len(), 6);
}

#[test]
fn bytes_rebuild_a_buffer_elsewhere() {
    let mut source = StructuredCloneBuffer::new(StructuredCloneScope::SameProcessDifferentThread);
    assert!(source.write(Some(vec![0xde, 0xad, 0xbe, 0xef])));
    let sent = source.copy_to_vec();
    let mut target = StructuredCloneBuffer::new(StructuredCloneScope::SameProcessDifferentThread);
    assert!(target.write_bytes(&sent));
    assert_eq!(target.copy_to_vec(), source.copy_to_vec());
    assert_eq!(target.scope(), source.scope());
}
