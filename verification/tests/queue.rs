use protty_mpsc::vocabulary::{Action, PopAction, Reply};
use protty_mpsc::MpscQueue;
use std::cell::RefCell;
use std::rc::Rc;

#[test]
fn empty_queue_has_nothing_to_pop() {
    let mut queue: MpscQueue<u32> = MpscQueue::default();
    assert_eq!(queue.pop(), None);
    assert_eq!(queue.pop(), None);
}

#[test]
fn one_item_comes_back() {
    let mut queue = MpscQueue::default();
    queue.push(7);
    assert_eq!(queue.pop(), Some(7));
    assert_eq!(queue.pop(), None);
}

#[test]
fn items_come_back_in_order() {
    let mut queue = MpscQueue::default();
    queue.push("a");
    queue.push("b");
    queue.push("c");
    assert_eq!(queue.pop(), Some("a"));
    assert_eq!(queue.pop(), Some("b"));
    assert_eq!(queue.pop(), Some("c"));
    assert_eq!(queue.pop(), None);
}

#[test]
fn order_holds_across_block_ends() {
    for count in [30, 31, 32, 61, 62, 63, 93, 94, 1000] {
        let mut queue = MpscQueue::default();
        for i in 0..count {
            queue.push(i);
        }
        for i in 0..count {
            assert_eq!(queue.pop(), Some(i));
        }
        assert_eq!(queue.pop(), None);
        queue.push(count);
        assert_eq!(queue.pop(), Some(count));
        assert_eq!(queue.pop(), None);
    }
}

#[test]
fn pushes_and_pops_can_alternate() {
    let mut queue = MpscQueue::default();
    let mut next_out = 0u64;
    let mut next_in = 0u64;
    for round in 0..200u64 {
        for _ in 0..(round % 7 + 1) {
            queue.push(next_in);
            next_in += 1;
        }
        for _ in 0..(round % 5 + 1) {
            if next_out < next_in {
                assert_eq!(queue.pop(), Some(next_out));
                next_out += 1;
            } else {
                assert_eq!(queue.pop(), None);
            }
        }
    }
    while next_out < next_in {
        assert_eq!(queue.pop(), Some(next_out));
        next_out += 1;
    }
    assert_eq!(queue.pop(), None);
}

#[test]
fn pushes_after_draining_a_full_block_come_back() {
    let mut queue = MpscQueue::default();
    for lap in 0..5 {
        for i in 0..31 {
            queue.push((lap, i));
        }
        for i in 0..31 {
            assert_eq!(queue.pop(), Some((lap, i)));
        }
        assert_eq!(queue.pop(), None);
    }
}

#[test]
fn items_are_moved_not_copied() {
    let mut queue = MpscQueue::default();
    let item = Rc::new(5);
    queue.push(item.clone());
    assert_eq!(Rc::strong_count(&item), 2);
    let back = queue.pop();
    assert_eq!(back.as_deref(), Some(&5));
    assert_eq!(Rc::strong_count(&item), 2);
    drop(back);
    assert_eq!(Rc::strong_count(&item), 1);
}

#[test]
fn taking_down_hands_out_each_item_once() {
    let item = Rc::new(());
    let mut queue = MpscQueue::default();
    for _ in 0..100 {
        queue.push(item.clone());
    }
    for _ in 0..40 {
        queue.pop();
    }
    assert_eq!(Rc::strong_count(&item), 61);
    let (items, memory) = queue.tear_down();
    assert_eq!(items.len(), 60);
    assert_eq!(Rc::strong_count(&item), 61);
    drop(items);
    assert_eq!(Rc::strong_count(&item), 1);
    drop(memory);
}

#[test]
fn taking_down_brings_the_consumer_to_the_producers() {
    let mut queue = MpscQueue::default();
    for i in 0..100 {
        queue.push(i);
    }
    queue.pop();
    let (items, mut memory) = queue.tear_down();
    assert_eq!(items, (1..100).collect::<Vec<i32>>());
    let me = memory.enter();
    match memory.perform(me, Action::LoadPosition, &mut None) {
        Reply::Word(position) => assert_eq!(position, 103),
        other => panic!("{:?}", other),
    }
    let (reply, _) = memory.perform_pop(PopAction::LoadConsumer);
    match reply {
        Reply::Consumer { block, index } => {
            assert!(block.is_some());
            assert_eq!(index, 7);
        }
        other => panic!("{:?}", other),
    }
}

#[test]
fn dropping_drops_each_item_once() {
    let item = Rc::new(());
    let mut queue = MpscQueue::default();
    for _ in 0..70 {
        queue.push(item.clone());
    }
    queue.pop();
    drop(queue);
    assert_eq!(Rc::strong_count(&item), 1);
}

#[test]
fn an_unused_queue_can_be_taken_down() {
    let queue: MpscQueue<String> = MpscQueue::default();
    let (items, _) = queue.tear_down();
    assert!(items.is_empty());
}

struct Dropped(u32, Rc<RefCell<Vec<u32>>>);

impl Drop for Dropped {
    fn drop(&mut self) {
        self.1.borrow_mut().push(self.0);
    }
}

#[test]
fn dropping_drops_the_oldest_item_first() {
    for (first, pops, second) in [(62, 32, 32), (0, 0, 0), (1, 0, 0), (31, 31, 40), (500, 333, 77)] {
        let dropped = Rc::new(RefCell::new(Vec::new()));
        let mut queue = MpscQueue::default();
        for i in 0..first {
            queue.push(Dropped(i, dropped.clone()));
        }
        for i in 0..pops {
            assert_eq!(queue.pop().unwrap().0, i);
        }
        for i in first..first + second {
            queue.push(Dropped(i, dropped.clone()));
        }
        assert_eq!(*dropped.borrow(), (0..pops).collect::<Vec<u32>>());
        drop(queue);
        assert_eq!(*dropped.borrow(), (0..first + second).collect::<Vec<u32>>());
    }
}

#[test]
fn dropping_keeps_the_order_through_any_history() {
    let dropped = Rc::new(RefCell::new(Vec::new()));
    let mut queue = MpscQueue::default();
    let mut state: u32 = 1;
    let (mut pushed, mut popped) = (0, 0);
    for _ in 0..20_000 {
        state = state.wrapping_mul(1664525).wrapping_add(1013904223);
        if state >> 24 < 140 {
            queue.push(Dropped(pushed, dropped.clone()));
            pushed += 1;
        } else if let Some(item) = queue.pop() {
            assert_eq!(item.0, popped);
            popped += 1;
        }
    }
    drop(queue);
    assert_eq!(*dropped.borrow(), (0..pushed).collect::<Vec<u32>>());
}
