use protty_mpsc::block::{Block, Value};
use protty_mpsc::layout::{BLOCK_CAP, LAP};
use protty_mpsc::parker::{Event, EventAction, EventWait, Park, Parker};
use protty_mpsc::pop::{Drain, Pop};
use protty_mpsc::push::{Push, PushStage};
use protty_mpsc::slab::Slab;
use protty_mpsc::spin::{Backoff, SpinWait};
use protty_mpsc::vocabulary::{Action, ParkerWord, PopAction, Reply};
use protty_mpsc::waitlist::{WaitList, WaitStage, WaitWhile, Wake};
use std::cell::RefCell;
use std::rc::Rc;

#[test]
fn a_lap_is_a_block_and_one_more() {
    assert_eq!(LAP, 32);
    assert_eq!(BLOCK_CAP, 31);
}

#[test]
fn backoff_doubles_and_then_yields() {
    let mut spin = SpinWait::default();
    assert_eq!(spin.counter, 0);
    assert_eq!(spin.yield_now(), Backoff::Spin(2));
    assert_eq!(spin.yield_now(), Backoff::Spin(4));
    assert_eq!(spin.yield_now(), Backoff::Spin(8));
    assert_eq!(spin.yield_now(), Backoff::YieldThread);
    assert_eq!(spin.yield_now(), Backoff::YieldThread);
    assert_eq!(spin.counter, 5);
}

#[test]
fn waiters_never_spin() {
    let mut spin = SpinWait { counter: 3 };
    assert!(!spin.try_yield_now());
    assert_eq!(spin.counter, 3);
}

#[test]
fn processor_count_is_remembered() {
    assert_eq!(SpinWait::num_cpus(8, Some(4)), 8);
    assert_eq!(SpinWait::num_cpus(0, Some(4)), 4);
    assert_eq!(SpinWait::num_cpus(0, None), 1);
    assert!(!SpinWait::should_spin(1));
    assert!(SpinWait::should_spin(2));
}

#[test]
fn new_block_is_empty() {
    let mut block: Block<u8> = Block::new();
    for i in 0..BLOCK_CAP {
        assert!(!block.is_stored(i));
    }
    assert_eq!(block.next(), None);
    block.write(30, 9);
    block.set_stored(30);
    assert!(block.is_stored(30));
    assert!(!block.is_stored(29));
    assert_eq!(block.read(30), 9);
    block.set_next(4);
    assert_eq!(block.next(), Some(4));
}

#[test]
fn slab_finds_what_it_holds() {
    let mut slab = Slab::new();
    let a = slab.insert('a');
    let b = slab.insert('b');
    assert_ne!(a, b);
    assert_eq!(slab.remove(a), 'a');
    let c = slab.insert('c');
    assert_ne!(c, b);
    assert_eq!(*slab.get(b), 'b');
    *slab.get_mut(c) = 'd';
    assert_eq!(*slab.get(c), 'd');
    assert_eq!(slab.remove(b), 'b');
    assert_eq!(slab.remove(c), 'd');
    let e = slab.insert('e');
    assert_eq!(*slab.get(e), 'e');
}

struct Dropped(u32, Rc<RefCell<Vec<u32>>>);

impl Drop for Dropped {
    fn drop(&mut self) {
        self.1.borrow_mut().push(self.0);
    }
}

#[test]
fn slab_drops_what_came_first_first() {
    let dropped = Rc::new(RefCell::new(Vec::new()));
    let mut slab = Slab::new();
    let mut held = Vec::new();
    let mut state: u32 = 12345;
    for i in 0..2000u32 {
        held.push((i, slab.insert(Dropped(i, dropped.clone()))));
        for _ in 0..2 {
            state = state.wrapping_mul(1664525).wrapping_add(1013904223);
            if state >> 30 < 2 && held.len() > 5 {
                let (number, handle) = held.remove((state >> 8) as usize % held.len());
                assert_eq!(slab.get(handle).0, number);
                assert_eq!(slab.remove(handle).0, number);
            }
        }
        for &(number, handle) in held.iter() {
            assert_eq!(slab.get(handle).0, number);
        }
    }
    assert!(held.len() > 5);
    dropped.borrow_mut().clear();
    drop(slab);
    let left: Vec<u32> = held.iter().map(|&(number, _)| number).collect();
    assert_eq!(*dropped.borrow(), left);
}

#[test]
fn an_item_that_can_be_copied_can_be_read_again() {
    let mut value = Value::new();
    value.write(7u8);
    assert_eq!(value.read_copy(), 7);
    assert_eq!(value.read_copy(), 7);
    value.write(8);
    assert_eq!(value.read_copy(), 8);
    assert_eq!(value.read(), 8);
}

#[test]
fn parker_keeps_the_first_mark() {
    let mut parker = Parker::default();
    assert!(matches!(parker.arm(7), ParkerWord::Empty));
    assert_eq!(parker.event.thread, Some(7));
    assert!(matches!(parker.notify(), ParkerWord::Armed));
    assert!(!parker.event.is_set);
    assert_eq!(parker.set_event(), 7);
    assert!(parker.event.is_set);
    assert_eq!(parker.event.thread, None);
    assert!(matches!(parker.arm(7), ParkerWord::Notified));
    assert!(parker.event.is_set);
    assert!(matches!(parker.word, ParkerWord::Notified));
    parker.reset();
    assert!(matches!(parker.word, ParkerWord::Empty));
}

#[test]
fn an_event_gives_up_its_thread_when_it_is_set() {
    let fresh = Event::default();
    assert_eq!(fresh.thread, None);
    assert!(!fresh.is_set);
    let mut event = Event::with(4);
    assert_eq!(event.thread, Some(4));
    assert!(!event.is_set);
    assert_eq!(event.set(), 4);
    assert_eq!(event.thread, None);
    assert!(event.is_set);
}

#[test]
fn a_sleeper_goes_back_to_sleep_until_its_event_is_set() {
    let mut wait = EventWait::new();
    for _ in 0..3 {
        assert_eq!(wait.action(), EventAction::Load);
        wait = wait.resume(Reply::Outcome(false));
        assert_eq!(wait.action(), EventAction::ParkThread);
        assert!(!wait.can_resume(&Reply::Outcome(true)));
        wait = wait.resume(Reply::Unit);
        assert!(!wait.is_done());
    }
    assert!(!wait.can_resume(&Reply::Unit));
    wait = wait.resume(Reply::Outcome(true));
    assert!(wait.is_done());
    assert_eq!(wait.action(), EventAction::Finish);
    assert!(!wait.can_resume(&Reply::Unit));
}

#[test]
fn an_event_that_is_set_in_time_is_not_slept_on() {
    assert!(EventWait::new().resume(Reply::Outcome(true)).is_done());
}

#[test]
fn an_item_that_is_written_over_is_not_dropped() {
    let first = Rc::new(1);
    let second = Rc::new(2);
    let mut value = Value::new();
    value.write(first.clone());
    value.write(second.clone());
    assert_eq!(*value.read(), 2);
    assert_eq!(Rc::strong_count(&first), 2);
    assert_eq!(Rc::strong_count(&second), 1);
    let mut block = Block::new();
    block.write(3, first.clone());
    block.write(3, second.clone());
    assert_eq!(*block.read(3), 2);
    assert_eq!(Rc::strong_count(&first), 3);
}

#[test]
fn wait_list_is_exchanged_only_when_unchanged() {
    let mut list = WaitList::default();
    assert_eq!(list.exchange(None, 3), (true, None));
    assert_eq!(list.exchange(None, 4), (false, Some(3)));
    assert_eq!(list.exchange(Some(3), 4), (true, Some(3)));
    assert_eq!(list.take(), Some(4));
    assert_eq!(list.take(), None);
}

#[test]
fn a_thread_that_was_notified_does_not_sleep() {
    let park = Park::Load.resume(Reply::Parker(ParkerWord::Notified));
    assert!(matches!(park, Park::Reset));
    assert!(matches!(park.action(), Action::ResetParker));
    assert!(matches!(park.resume(Reply::Unit), Park::Done));
}

#[test]
fn a_thread_that_was_not_notified_sleeps() {
    let park = Park::Load.resume(Reply::Parker(ParkerWord::Empty));
    assert!(matches!(park.action(), Action::ArmParker));
    let park = park.resume(Reply::Parker(ParkerWord::Empty));
    assert!(matches!(park.action(), Action::AwaitEvent));
    let park = park.resume(Reply::Unit);
    assert!(matches!(park.action(), Action::LoadParker));
    let park = park.resume(Reply::Parker(ParkerWord::Notified));
    assert!(matches!(park, Park::Reset));
}

#[test]
fn a_mark_that_arrives_while_arming_is_seen() {
    assert!(matches!(Park::Arm.resume(Reply::Parker(ParkerWord::Notified)), Park::Reset));
}

#[test]
fn impossible_marks_are_refused() {
    assert!(!Park::Arm.can_resume(&Reply::Parker(ParkerWord::Armed)));
    assert!(!Park::Reload.can_resume(&Reply::Parker(ParkerWord::Empty)));
    assert!(!Park::Reload.can_resume(&Reply::Parker(ParkerWord::Armed)));
    assert!(Park::Reload.can_resume(&Reply::Parker(ParkerWord::Notified)));
    assert!(!Park::Done.can_resume(&Reply::Unit));
}

#[test]
fn nobody_is_woken_twice() {
    let wake = Wake::Notify { waiter: 1, next: None };
    assert!(!wake.can_resume(&Reply::Parker(ParkerWord::Notified)));
    assert!(wake.can_resume(&Reply::Parker(ParkerWord::Empty)));
    assert!(wake.can_resume(&Reply::Parker(ParkerWord::Armed)));
}

#[test]
fn waking_goes_down_the_list() {
    let wake = Wake::Swap.resume(Reply::Link(Some(5)));
    assert!(matches!(wake.action(), Action::ReadNext { waiter: 5 }));
    let wake = wake.resume(Reply::Link(Some(2)));
    assert!(matches!(wake.action(), Action::NotifyParker { waiter: 5 }));
    let wake = wake.resume(Reply::Parker(ParkerWord::Armed));
    assert!(matches!(wake.action(), Action::SetEvent { waiter: 5 }));
    let wake = wake.resume(Reply::Unit);
    assert!(matches!(wake.action(), Action::ReadNext { waiter: 2 }));
    let wake = wake.resume(Reply::Link(None));
    let wake = wake.resume(Reply::Parker(ParkerWord::Empty));
    assert!(matches!(wake, Wake::Done));
    assert!(matches!(Wake::Swap.resume(Reply::Link(None)), Wake::Done));
}

#[test]
fn a_wait_with_nothing_to_wait_for_ends_at_once() {
    let wait = WaitWhile::new();
    assert!(matches!(wait.action(), Action::LoadTop));
    let wait = wait.resume(Reply::Link(None));
    assert!(matches!(wait.action(), Action::Evaluate));
    let wait = wait.resume(Reply::Outcome(false));
    assert!(matches!(wait.stage, WaitStage::Done));
}

#[test]
fn a_wait_that_loses_the_exchange_asks_again() {
    let wait = WaitWhile::new().resume(Reply::Link(None)).resume(Reply::Outcome(true));
    assert!(matches!(wait.action(), Action::PushWaiter { top: None }));
    let wait = wait.resume(Reply::Exchange { ok: false, current: Some(9) });
    assert!(matches!(wait.stage, WaitStage::Check { top: Some(9) }));
    let wait = wait.resume(Reply::Outcome(true));
    assert!(matches!(wait.action(), Action::PushWaiter { top: Some(9) }));
    let wait = wait.resume(Reply::Exchange { ok: true, current: Some(9) });
    assert!(matches!(wait.stage, WaitStage::Recheck));
}

#[test]
fn a_wait_that_ends_while_getting_on_the_list_wakes_everyone() {
    let wait = WaitWhile::new()
        .resume(Reply::Link(None))
        .resume(Reply::Outcome(true))
        .resume(Reply::Exchange { ok: true, current: None })
        .resume(Reply::Outcome(false));
    assert!(matches!(wait.action(), Action::SwapTop));
    let wait = wait.resume(Reply::Link(None));
    assert!(matches!(wait.stage, WaitStage::Sleep { park: Park::Load }));
}

#[test]
fn the_position_decides_what_a_push_does_first() {
    let push = Push::new().resume(Reply::Word(0));
    assert!(matches!(push.stage, PushStage::LoadBlock));
    let push = Push::new().resume(Reply::Word(30));
    assert!(matches!(push.stage, PushStage::AllocNext));
    let push = Push::new().resume(Reply::Word(31));
    assert!(matches!(push.stage, PushStage::Wait { .. }));
    let push = Push::new().resume(Reply::Word(32));
    assert!(matches!(push.stage, PushStage::LoadBlock));
    let push = Push::new().resume(Reply::Word(usize::MAX));
    assert!(matches!(push.stage, PushStage::Wait { .. }));
}

#[test]
fn the_position_wraps() {
    let push = Push::new()
        .resume(Reply::Word(usize::MAX - 1))
        .resume(Reply::Handle(7))
        .resume(Reply::Link(Some(3)));
    match push.action() {
        Action::ClaimPosition { current, new } => {
            assert_eq!(current, usize::MAX - 1);
            assert_eq!(new, usize::MAX);
        }
        other => panic!("{:?}", other),
    }
    let push = push.resume(Reply::Outcome(true));
    assert!(matches!(push.action(), Action::StoreBlock { block: 7 }));
    let push = push.resume(Reply::Unit);
    assert!(matches!(push.action(), Action::LinkBlock { block: 3, next: 7 }));
    let push = push.resume(Reply::Unit);
    assert!(matches!(push.action(), Action::StorePosition { position: 0 }));
    let push = push.resume(Reply::Unit);
    assert!(matches!(push.action(), Action::SwapTop));
    let push = push.resume(Reply::Link(None));
    assert!(matches!(push.action(), Action::WriteValue { block: 3, index: 30 }));
    let push = push.resume(Reply::Unit);
    assert!(matches!(push.action(), Action::StoreFlag { block: 3, index: 30 }));
    assert!(push.resume(Reply::Unit).is_done());
}

#[test]
fn a_failed_claim_backs_off_and_starts_over() {
    let push = Push::new().resume(Reply::Word(4)).resume(Reply::Link(Some(0)));
    let push = push.resume(Reply::Outcome(false));
    assert!(matches!(push.action(), Action::Pause { pause: Backoff::Spin(2) }));
    assert_eq!(push.spin.counter, 1);
    let push = push.resume(Reply::Unit);
    assert!(matches!(push.action(), Action::LoadPosition));
}

#[test]
fn a_backoff_that_cannot_be_counted_is_refused() {
    let mut push = Push::new().resume(Reply::Word(4)).resume(Reply::Link(Some(0)));
    push.spin.counter = usize::MAX;
    assert!(!push.can_resume(&Reply::Outcome(false)));
    assert!(push.can_resume(&Reply::Outcome(true)));
}

#[test]
fn the_last_slot_is_not_claimed_without_a_successor() {
    let mut push = Push::new()
        .resume(Reply::Word(30))
        .resume(Reply::Handle(7))
        .resume(Reply::Link(Some(3)));
    assert!(push.can_resume(&Reply::Outcome(true)));
    push.next_block = None;
    assert!(!push.can_resume(&Reply::Outcome(true)));
}

#[test]
fn replies_of_the_wrong_kind_are_refused() {
    assert!(!Push::new().can_resume(&Reply::Unit));
    assert!(Push::new().can_resume(&Reply::Word(3)));
    assert!(!Pop::new().can_resume(&Reply::Unit));
    assert!(!Drain::new().can_resume(&Reply::Link(None)));
    assert!(!WaitWhile::new().can_resume(&Reply::Outcome(true)));
}

#[test]
fn a_pop_without_a_block_ends() {
    let pop = Pop::new().resume(Reply::Consumer { block: None, index: 0 });
    assert!(matches!(pop, Pop::Done { taken: false }));
}

#[test]
fn a_pop_at_the_end_of_a_block_goes_on_to_the_next() {
    let pop = Pop::new().resume(Reply::Consumer { block: Some(2), index: 31 });
    assert!(matches!(pop.action(), PopAction::LoadNext { block: 2 }));
    assert!(matches!(pop.resume(Reply::Link(None)), Pop::Done { taken: false }));
    let pop = pop.resume(Reply::Link(Some(6)));
    assert!(matches!(pop.action(), PopAction::FreeBlock { block: 2 }));
    let pop = pop.resume(Reply::Unit);
    assert!(matches!(pop.action(), PopAction::Advance { block: 6 }));
    let pop = pop.resume(Reply::Unit);
    assert!(matches!(pop.action(), PopAction::LoadFlag { block: 6, index: 0 }));
    assert!(matches!(pop.resume(Reply::Outcome(false)), Pop::Done { taken: false }));
    let pop = pop.resume(Reply::Outcome(true));
    assert!(matches!(pop.action(), PopAction::Take { block: 6, index: 0 }));
    assert!(matches!(pop.resume(Reply::Unit), Pop::Done { taken: true }));
}

#[test]
fn taking_down_pops_until_nothing_comes_and_frees_the_last_block() {
    let drain = Drain::new();
    let drain = drain.resume(Reply::Consumer { block: Some(1), index: 0 });
    let drain = drain.resume(Reply::Outcome(true));
    assert!(matches!(drain.action(), PopAction::Take { block: 1, index: 0 }));
    let drain = drain.resume(Reply::Unit);
    assert!(matches!(drain.action(), PopAction::LoadConsumer));
    let drain = drain.resume(Reply::Consumer { block: Some(1), index: 1 });
    let drain = drain.resume(Reply::Outcome(false));
    assert!(matches!(drain, Drain::LoadLast));
    let drain = drain.resume(Reply::Consumer { block: Some(1), index: 1 });
    assert!(matches!(drain.action(), PopAction::FreeBlock { block: 1 }));
    assert!(drain.resume(Reply::Unit).is_done());
}
