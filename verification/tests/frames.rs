use lox_interpreter::callstack::CallStack;
use lox_interpreter::container::Container;
use lox_interpreter::frame::{Frame, FramePool};
use lox_interpreter::objects::Object;
use lox_interpreter::opcode::Opcode;

fn fields(f: &Frame<'static>) -> (usize, bool, usize, usize, usize, usize, usize, usize) {
    (
        f.const_index,
        f.is_main,
        f.ip,
        f.end_ip,
        f.base_pointer,
        f.free_start,
        f.free_len,
        f.fress.len(),
    )
}

#[test]
fn a_frame_holds_what_it_was_made_with() {
    let frame = Frame::new(3, true, 10, 20, 5, 7, 1, vec![Object::Nil]);
    assert_eq!(fields(&frame), (3, true, 10, 20, 5, 7, 1, 1));
    assert_eq!(frame.ip(), 10);
    assert_eq!(frame.base_pointer(), 5);
    assert_eq!(frame.get_index(), 3);
    assert!(frame.is_main());
    assert_eq!(frame.get_end_ip(), 20);
}

#[test]
fn the_position_of_a_frame_moves() {
    let mut frame: Frame<'static> = Frame::new(0, false, 10, 20, 5, 0, 0, Vec::new());
    frame.incr_ip();
    assert_eq!(frame.ip(), 11);
    frame.push();
    assert_eq!(frame.ip(), 12);
    frame.pop();
    assert_eq!(frame.ip(), 11);
    frame.set_ip(3);
    assert_eq!(frame.ip(), 8);
    frame.set_base_pointer(9);
    assert_eq!(frame.base_pointer(), 9);
    assert_eq!(fields(&frame), (0, false, 8, 20, 9, 0, 0, 0));
}

#[test]
fn an_empty_pool_hands_out_blank_frames() {
    let mut pool: FramePool<'static> = FramePool::new();
    let frame = pool.get_frame();
    assert_eq!(fields(&frame), (0, false, 0, 0, 0, 0, 0, 0));
    assert!(pool.pool.is_empty());
}

#[test]
fn a_pool_hands_out_the_frame_returned_last() {
    let mut pool: FramePool<'static> = FramePool::new();
    pool.return_frame(Frame::new(1, false, 1, 1, 1, 1, 0, Vec::new()));
    pool.return_frame(Frame::new(2, true, 2, 2, 2, 2, 0, Vec::new()));
    assert_eq!(pool.pool.len(), 2);
    assert_eq!(pool.get_frame().get_index(), 2);
    assert_eq!(pool.get_frame().get_index(), 1);
    assert_eq!(pool.get_frame().get_index(), 0);
}

#[test]
fn the_call_stack_is_last_in_first_out() {
    let mut pool: FramePool<'static> = FramePool::new();
    pool.return_frame(Frame::new(9, false, 0, 0, 0, 0, 0, Vec::new()));
    let mut stack = CallStack::new(pool);
    assert!(stack.current_frame().is_none());
    assert!(stack.pop_frame().is_none());
    stack.push_frame(Frame::new(1, true, 0, 4, 0, 0, 0, Vec::new()));
    stack.push_frame(Frame::new(2, false, 4, 8, 2, 0, 0, Vec::new()));
    assert_eq!(stack.current_frame().map(|f| f.get_index()), Some(2));
    assert_eq!(stack.pop_frame().map(|f| f.get_index()), Some(2));
    assert_eq!(stack.current_frame().map(|f| f.get_index()), Some(1));
    assert_eq!(stack.pop_frame().map(|f| f.get_index()), Some(1));
    assert!(stack.pop_frame().is_none());
    assert_eq!(stack.get_pool().pool.len(), 1);
}

#[test]
fn a_container_hands_out_its_value_once_told_to() {
    let mut container: Container<'static> = Container::new(Object::Index(7));
    assert_eq!(container.get_ref(), None);
    container.set_ref();
    assert_eq!(container.get_ref(), Some(&Object::Index(7)));
}

#[test]
fn an_instruction_copies_to_an_equal_one() {
    let codes = vec![
        Opcode::LoadConstant(3),
        Opcode::DefineGlobal("a".to_string()),
        Opcode::Jump(7),
        Opcode::Exit(3),
        Opcode::Closure(1, 2),
    ];
    for code in codes {
        assert_eq!(code.duplicate(), code);
    }
}
