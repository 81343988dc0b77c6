use brane_vm::convert::check_loadable;
use brane_vm::globals::Globals;
use brane_vm::heap::Heap;
use brane_vm::objects::Object;
use brane_vm::stack::{Slot, Stack, StackError};
use brane_vm::value::Value;

#[test]
fn integers_read_back_as_pushed() {
    for use_const in [true, false] {
        let mut stack = Stack::new(16, use_const);
        for i in [-3i64, -2, -1, 0, 1, 2, 3, i64::MAX, i64::MIN] {
            stack.push_integer(i);
            assert_eq!(stack.pop_integer().ok(), Some(i));
        }
        assert!(stack.is_empty());
    }
}

#[test]
fn constant_slots_need_a_stack_that_uses_them() {
    let mut stack = Stack::new(4, false);
    stack.push(Slot::ConstOne);
    assert!(matches!(stack.pop_integer(), Err(StackError::NotUsingConstOpts { slot: Slot::ConstOne })));
    let mut stack = Stack::new(4, true);
    stack.push(Slot::ConstMinusTwo);
    assert_eq!(stack.pop_integer().ok(), Some(-2));
}

#[test]
fn popping_the_wrong_type_fails() {
    let mut stack = Stack::default();
    stack.push_integer(5);
    match stack.pop_boolean() {
        Err(StackError::UnexpectedType { got, expected }) => {
            assert_eq!(expected, "Boolean");
            assert_eq!(got, "Integer");
        },
        other => panic!("unexpected: {:?}", other),
    }
    stack.push_boolean(true);
    assert_eq!(stack.peek_boolean().ok(), Some(true));
    assert_eq!(stack.pop_boolean().ok(), Some(true));
}

#[test]
fn clear_from_drops_the_slots_above() {
    let mut stack = Stack::default();
    stack.push_unit();
    stack.push_integer(7);
    stack.push_integer(8);
    stack.clear_from(1);
    assert_eq!(stack.len(), 1);
    assert!(stack.pop_unit().is_ok());
    stack.push_unit();
    stack.clear();
    assert!(stack.is_empty());
}

#[test]
fn try_push_and_try_pop() {
    let mut stack = Stack::default();
    stack.try_push(None);
    assert!(stack.is_empty());
    stack.try_push(Some(Slot::Unit));
    assert!(matches!(stack.try_pop(), Some(Slot::Unit)));
    assert!(stack.try_pop().is_none());
}

#[test]
fn values_make_slots_and_slots_give_them_back() {
    let globals = Globals::new();
    let mut heap: Heap<Object> = Heap::default();
    let values = vec![
        Value::Integer(-4),
        Value::Boolean(false),
        Value::Real(1.5f64.to_bits()),
        Value::Unicode("text".to_string()),
        Value::Unit,
        Value::Array { data_type: "integer".to_string(), entries: vec![Value::Integer(1), Value::Integer(2)] },
    ];
    for v in values {
        assert!(check_loadable(&v, &globals));
        let text = format!("{:?}", v);
        let slot = Slot::from_value(v, &globals, &mut heap).unwrap();
        let back = slot.into_value();
        assert_eq!(format!("{:?}", back), text);
    }
}

#[test]
fn slot_types() {
    assert_eq!(Slot::Integer(3).data_type(), "Integer");
    assert_eq!(Slot::True.data_type(), "Boolean");
    assert_eq!(Slot::Unit.data_type(), "Unit");
}
