use brane_vm::stack::{Slot, Stack};

#[test]
fn test_copy_pop() {
    let mut stack = Stack::default();
    stack.push(Slot::Integer(1));
    stack.push(Slot::Integer(2));
    stack.push(Slot::Integer(3));

    stack.copy_pop(0);

    assert_eq!(stack.len(), 2);
    assert_eq!(stack.pop_integer().ok(), Some(2));
    assert_eq!(stack.pop_integer().ok(), Some(3));
}

#[test]
fn test_copy_push() {
    let mut stack = Stack::default();
    stack.push(Slot::Integer(1));
    stack.push(Slot::Integer(2));

    stack.copy_push(0);

    assert_eq!(stack.len(), 3);
    assert_eq!(stack.pop_integer().ok(), Some(1));
    assert_eq!(stack.pop_integer().ok(), Some(2));
    assert_eq!(stack.pop_integer().ok(), Some(1));
}
