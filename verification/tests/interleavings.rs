use protty_mpsc::memory::Memory;
use protty_mpsc::parker::Park;
use protty_mpsc::pop::{Drain, Pop};
use protty_mpsc::push::{Push, PushStage};
use protty_mpsc::vocabulary::{Action, PopAction, Reply};
use protty_mpsc::waitlist::{WaitStage, Wake};

struct Producer {
    me: usize,
    push: Push,
    item: Option<u32>,
}

fn begin(memory: &mut Memory<u32>, item: u32) -> Producer {
    Producer { me: memory.enter(), push: Push::new(), item: Some(item) }
}

fn blocked(memory: &Memory<u32>, producer: &Producer) -> bool {
    memory.is_blocked(producer.me, producer.push.action())
}

/// Carries out one request; false if there is none that can be answered.
fn step(memory: &mut Memory<u32>, producer: &mut Producer) -> bool {
    if producer.push.is_done() || blocked(memory, producer) {
        return false;
    }
    let reply = memory.perform(producer.me, producer.push.action(), &mut producer.item);
    assert!(producer.push.can_resume(&reply));
    producer.push = producer.push.resume(reply);
    true
}

fn run(memory: &mut Memory<u32>, producer: &mut Producer) {
    while step(memory, producer) {}
}

fn run_until(memory: &mut Memory<u32>, producer: &mut Producer, at: fn(&PushStage) -> bool) {
    while !at(&producer.push.stage) {
        assert!(step(memory, producer));
    }
}

fn push(memory: &mut Memory<u32>, item: u32) {
    let mut producer = begin(memory, item);
    run(memory, &mut producer);
    assert!(producer.push.is_done());
    memory.leave(producer.me);
}

fn pop(memory: &mut Memory<u32>) -> Option<u32> {
    let mut pop = Pop::new();
    let mut item = None;
    while !pop.is_done() {
        let (reply, moved) = memory.perform_pop(pop.action());
        assert!(pop.can_resume(&reply));
        item = moved;
        pop = pop.resume(reply);
    }
    item
}

fn at_claim(stage: &PushStage) -> bool {
    matches!(stage, PushStage::Claim { .. })
}

fn at_write(stage: &PushStage) -> bool {
    matches!(stage, PushStage::Write { .. })
}

fn at_store_position(stage: &PushStage) -> bool {
    matches!(stage, PushStage::StorePosition { .. })
}

fn at_recheck(stage: &PushStage) -> bool {
    match stage {
        PushStage::Wait { wait } => matches!(wait.stage, WaitStage::Recheck),
        _ => false,
    }
}

fn at_arm(stage: &PushStage) -> bool {
    match stage {
        PushStage::Wait { wait } => matches!(wait.stage, WaitStage::Sleep { park: Park::Arm }),
        _ => false,
    }
}

#[test]
fn slots_are_handed_out_in_the_order_of_the_claims() {
    let mut memory = Memory::new();
    let mut a = begin(&mut memory, 1);
    let mut b = begin(&mut memory, 2);
    run_until(&mut memory, &mut a, at_write);
    run(&mut memory, &mut b);
    assert!(b.push.is_done());
    assert_eq!(pop(&mut memory), None);
    run(&mut memory, &mut a);
    assert!(a.push.is_done());
    assert_eq!(pop(&mut memory), Some(1));
    assert_eq!(pop(&mut memory), Some(2));
    assert_eq!(pop(&mut memory), None);
}

#[test]
fn only_one_first_block_is_installed() {
    let mut memory = Memory::new();
    let mut a = begin(&mut memory, 1);
    let mut b = begin(&mut memory, 2);
    run_until(&mut memory, &mut a, |stage| matches!(stage, PushStage::Install { .. }));
    run(&mut memory, &mut b);
    assert!(step(&mut memory, &mut a));
    assert!(matches!(a.push.stage, PushStage::Discard { .. }));
    run(&mut memory, &mut a);
    assert_eq!(pop(&mut memory), Some(2));
    assert_eq!(pop(&mut memory), Some(1));
    assert_eq!(pop(&mut memory), None);
}

#[test]
fn the_consumer_sees_nothing_before_the_first_block_is_shown() {
    let mut memory = Memory::new();
    let mut a = begin(&mut memory, 1);
    run_until(&mut memory, &mut a, |stage| matches!(stage, PushStage::Publish { .. }));
    for i in 10..50 {
        push(&mut memory, i);
    }
    assert_eq!(pop(&mut memory), None);
    run(&mut memory, &mut a);
    assert!(a.push.is_done());
    for i in 10..50 {
        assert_eq!(pop(&mut memory), Some(i));
    }
    assert_eq!(pop(&mut memory), Some(1));
    assert_eq!(pop(&mut memory), None);
}

#[test]
fn a_stale_claim_fails_and_is_repeated() {
    let mut memory = Memory::new();
    push(&mut memory, 0);
    let mut a = begin(&mut memory, 1);
    run_until(&mut memory, &mut a, at_claim);
    push(&mut memory, 2);
    assert!(step(&mut memory, &mut a));
    assert!(matches!(a.push.stage, PushStage::Backoff { .. }));
    run(&mut memory, &mut a);
    assert_eq!(pop(&mut memory), Some(0));
    assert_eq!(pop(&mut memory), Some(2));
    assert_eq!(pop(&mut memory), Some(1));
}

#[test]
fn a_claim_stale_by_whole_blocks_fails() {
    let mut memory = Memory::new();
    push(&mut memory, 0);
    let mut a = begin(&mut memory, 1);
    run_until(&mut memory, &mut a, at_claim);
    for i in 100..200 {
        push(&mut memory, i);
    }
    assert_eq!(pop(&mut memory), Some(0));
    for i in 100..200 {
        assert_eq!(pop(&mut memory), Some(i));
    }
    run(&mut memory, &mut a);
    assert!(a.push.is_done());
    assert_eq!(a.push.spin.counter, 1);
    assert_eq!(pop(&mut memory), Some(1));
}

#[test]
fn a_producer_sleeps_while_the_next_block_is_linked_and_is_woken() {
    let mut memory = Memory::new();
    for i in 0..30 {
        push(&mut memory, i);
    }
    let mut linker = begin(&mut memory, 30);
    run_until(&mut memory, &mut linker, at_store_position);
    let mut sleeper = begin(&mut memory, 31);
    let mut other = begin(&mut memory, 32);
    run(&mut memory, &mut sleeper);
    run(&mut memory, &mut other);
    assert!(blocked(&memory, &sleeper));
    assert!(blocked(&memory, &other));
    run(&mut memory, &mut linker);
    assert!(linker.push.is_done());
    assert!(!blocked(&memory, &sleeper));
    assert!(!blocked(&memory, &other));
    run(&mut memory, &mut sleeper);
    run(&mut memory, &mut other);
    assert!(sleeper.push.is_done());
    assert!(other.push.is_done());
    for i in 0..33 {
        assert_eq!(pop(&mut memory), Some(i));
    }
    assert_eq!(pop(&mut memory), None);
}

#[test]
fn a_producer_that_is_notified_before_it_sleeps_does_not_sleep() {
    let mut memory = Memory::new();
    for i in 0..30 {
        push(&mut memory, i);
    }
    let mut linker = begin(&mut memory, 30);
    run_until(&mut memory, &mut linker, at_store_position);
    let mut waiter = begin(&mut memory, 31);
    run_until(&mut memory, &mut waiter, at_arm);
    run(&mut memory, &mut linker);
    assert!(linker.push.is_done());
    run(&mut memory, &mut waiter);
    assert!(waiter.push.is_done());
}

#[test]
fn a_producer_that_gets_on_the_list_too_late_wakes_itself() {
    let mut memory = Memory::new();
    for i in 0..30 {
        push(&mut memory, i);
    }
    let mut linker = begin(&mut memory, 30);
    run_until(&mut memory, &mut linker, at_store_position);
    let mut waiter = begin(&mut memory, 31);
    run_until(&mut memory, &mut waiter, |stage| match stage {
        PushStage::Wait { wait } => matches!(wait.stage, WaitStage::Enlist { .. }),
        _ => false,
    });
    run(&mut memory, &mut linker);
    assert!(linker.push.is_done());
    run_until(&mut memory, &mut waiter, at_recheck);
    assert!(step(&mut memory, &mut waiter));
    match waiter.push.stage {
        PushStage::Wait { wait } => {
            assert!(matches!(wait.stage, WaitStage::WakeAll { wake: Wake::Swap }));
        }
        _ => panic!("not waiting"),
    }
    run(&mut memory, &mut waiter);
    assert!(waiter.push.is_done());
}

#[test]
fn an_unused_successor_is_given_back() {
    let mut memory = Memory::new();
    for i in 0..30 {
        push(&mut memory, i);
    }
    let mut late = begin(&mut memory, 99);
    run_until(&mut memory, &mut late, at_claim);
    assert!(late.push.next_block.is_some());
    push(&mut memory, 30);
    run_until(&mut memory, &mut late, |stage| matches!(stage, PushStage::DropNext { .. }));
    run(&mut memory, &mut late);
    assert!(late.push.is_done());
    assert!(late.push.next_block.is_none());
    for i in 0..31 {
        assert_eq!(pop(&mut memory), Some(i));
    }
    assert_eq!(pop(&mut memory), Some(99));
}

#[test]
fn the_consumer_waits_for_the_writer_of_the_last_slot() {
    let mut memory = Memory::new();
    for i in 0..30 {
        push(&mut memory, i);
    }
    let mut linker = begin(&mut memory, 30);
    run_until(&mut memory, &mut linker, at_write);
    push(&mut memory, 31);
    for i in 0..30 {
        assert_eq!(pop(&mut memory), Some(i));
    }
    assert_eq!(pop(&mut memory), None);
    run(&mut memory, &mut linker);
    assert_eq!(pop(&mut memory), Some(30));
    assert_eq!(pop(&mut memory), Some(31));
    assert_eq!(pop(&mut memory), None);
}

#[test]
fn an_exchange_that_fails_for_no_reason_is_repeated() {
    let mut memory = Memory::new();
    let mut a = begin(&mut memory, 5);
    run_until(&mut memory, &mut a, at_claim);
    a.push = a.push.resume(Reply::Outcome(false));
    run(&mut memory, &mut a);
    assert!(a.push.is_done());
    assert_eq!(pop(&mut memory), Some(5));
}

#[test]
fn only_one_producer_links_the_next_block() {
    let mut memory = Memory::new();
    for i in 0..30 {
        push(&mut memory, i);
    }
    let mut a = begin(&mut memory, 30);
    let mut b = begin(&mut memory, 31);
    run_until(&mut memory, &mut a, at_claim);
    run_until(&mut memory, &mut b, at_claim);
    assert!(step(&mut memory, &mut a));
    assert!(step(&mut memory, &mut b));
    assert!(matches!(a.push.stage, PushStage::StoreBlock { .. }));
    assert!(matches!(b.push.stage, PushStage::Backoff { .. }));
    run(&mut memory, &mut b);
    assert!(blocked(&memory, &b));
    run(&mut memory, &mut a);
    run(&mut memory, &mut b);
    assert!(a.push.is_done());
    assert!(b.push.is_done());
    for i in 0..32 {
        assert_eq!(pop(&mut memory), Some(i));
    }
}

#[test]
fn blocks_are_given_back_as_the_queue_moves_on() {
    let mut memory = Memory::new();
    let mut blocks = 0;
    for i in 0..10_000 {
        let (made, given_back) = push_counting(&mut memory, i);
        blocks += made;
        blocks -= given_back;
        let mut pop = Pop::new();
        let mut item = None;
        while !pop.is_done() {
            if let PopAction::FreeBlock { .. } = pop.action() {
                blocks -= 1;
            }
            let (reply, moved) = memory.perform_pop(pop.action());
            item = moved;
            pop = pop.resume(reply);
        }
        assert_eq!(item, Some(i));
        assert!(blocks <= 2);
    }
}

/// Pushes, and says how many blocks that made and gave back.
fn push_counting(memory: &mut Memory<u32>, item: u32) -> (usize, usize) {
    let mut producer = begin(memory, item);
    let (mut made, mut given_back) = (0, 0);
    while !producer.push.is_done() {
        match producer.push.action() {
            Action::AllocBlock => made += 1,
            Action::FreeBlock { .. } => given_back += 1,
            _ => {}
        }
        assert!(step(memory, &mut producer));
    }
    memory.leave(producer.me);
    (made, given_back)
}

fn position(memory: &mut Memory<u32>) -> usize {
    let me = memory.enter();
    let reply = memory.perform(me, Action::LoadPosition, &mut None);
    memory.leave(me);
    match reply {
        Reply::Word(position) => position,
        other => panic!("{:?}", other),
    }
}

#[test]
fn the_number_of_pushes_tells_the_blocks_and_the_position() {
    let mut memory = Memory::new();
    let mut blocks = 0;
    assert_eq!(position(&mut memory), 0);
    for i in 0..100u32 {
        let (made, given_back) = push_counting(&mut memory, i);
        assert_eq!(given_back, 0);
        blocks += made;
        let pushes = i as usize + 1;
        assert_eq!(blocks, 1 + pushes / 31);
        assert_eq!(position(&mut memory), (pushes / 31) * 32 + pushes % 31);
    }
    assert_eq!(blocks, 4);
}

#[test]
fn a_pop_gives_back_a_block_only_once_it_is_used_up() {
    let mut memory = Memory::new();
    assert_eq!(pop(&mut memory), None);
    for i in 0..62 {
        push(&mut memory, i);
    }
    let mut given_back = Vec::new();
    for i in 0..63 {
        let mut pop = Pop::new();
        let mut item = None;
        while !pop.is_done() {
            if let PopAction::FreeBlock { .. } = pop.action() {
                given_back.push(i);
            }
            let (reply, moved) = memory.perform_pop(pop.action());
            item = moved;
            pop = pop.resume(reply);
        }
        assert_eq!(item, if i < 62 { Some(i) } else { None });
    }
    assert_eq!(given_back, vec![31, 62]);
}

#[test]
fn taking_down_hands_out_what_is_left_the_oldest_first() {
    let mut memory = Memory::new();
    for i in 0..100 {
        push(&mut memory, i);
    }
    for i in 0..40 {
        assert_eq!(pop(&mut memory), Some(i));
    }
    let mut out = Vec::new();
    let mut given_back = 0;
    let mut drain = Drain::new();
    while !drain.is_done() {
        if let PopAction::FreeBlock { .. } = drain.action() {
            given_back += 1;
        }
        let (reply, moved) = memory.perform_pop(drain.action());
        out.extend(moved);
        assert!(drain.can_resume(&reply));
        drain = drain.resume(reply);
    }
    assert_eq!(out, (40..100).collect::<Vec<u32>>());
    assert_eq!(given_back, 3);
}

#[test]
fn an_item_pushed_twice_comes_out_twice() {
    let mut memory = Memory::new();
    let mut a = begin(&mut memory, 5);
    let mut b = begin(&mut memory, 5);
    run_until(&mut memory, &mut a, at_write);
    run(&mut memory, &mut b);
    assert_eq!(pop(&mut memory), None);
    run(&mut memory, &mut a);
    assert_eq!(pop(&mut memory), Some(5));
    assert_eq!(pop(&mut memory), Some(5));
    assert_eq!(pop(&mut memory), None);
}

#[test]
fn a_push_that_begins_after_another_ended_comes_out_later() {
    let mut memory = Memory::new();
    let mut early = begin(&mut memory, 1);
    run(&mut memory, &mut early);
    assert!(early.push.is_done());
    let mut late = begin(&mut memory, 2);
    run_until(&mut memory, &mut late, at_write);
    assert_eq!(pop(&mut memory), Some(1));
    assert_eq!(pop(&mut memory), None);
    run(&mut memory, &mut late);
    assert_eq!(pop(&mut memory), Some(2));
}

fn next_random(state: &mut u64) -> u64 {
    *state = state.wrapping_mul(6364136223846793005).wrapping_add(1442695040888963407);
    *state >> 33
}

#[test]
fn any_schedule_keeps_every_item_and_each_producers_order() {
    for seed in 1..40u64 {
        let mut state = seed;
        let mut memory = Memory::new();
        let producers = 5u32;
        let each = 60u32;
        let mut sent = vec![0u32; producers as usize];
        let mut active: Vec<Option<Producer>> = (0..producers).map(|_| None).collect();
        let mut received: Vec<Vec<u32>> = (0..producers).map(|_| Vec::new()).collect();
        let mut stalled = 0;
        loop {
            let mut moved = false;
            let choice = next_random(&mut state) % (producers as u64 + 1);
            if choice == producers as u64 {
                if next_random(&mut state) % 8 == 0 {
                    if let Some(item) = pop(&mut memory) {
                        received[(item / 1000) as usize].push(item % 1000);
                        moved = true;
                    }
                }
            } else {
                let p = choice as usize;
                match active[p].take() {
                    None => {
                        if sent[p] < each {
                            active[p] = Some(begin(&mut memory, p as u32 * 1000 + sent[p]));
                            sent[p] += 1;
                            moved = true;
                        }
                    }
                    Some(mut producer) => {
                        for _ in 0..(next_random(&mut state) % 20) {
                            moved |= step(&mut memory, &mut producer);
                        }
                        if producer.push.is_done() {
                            memory.leave(producer.me);
                        } else {
                            active[p] = Some(producer);
                        }
                    }
                }
            }
            stalled = if moved { 0 } else { stalled + 1 };
            if stalled > 10_000 {
                break;
            }
        }
        for p in 0..producers as usize {
            assert!(active[p].is_none());
            assert_eq!(sent[p], each);
        }
        while let Some(item) = pop(&mut memory) {
            received[(item / 1000) as usize].push(item % 1000);
        }
        for p in 0..producers as usize {
            assert_eq!(received[p], (0..each).collect::<Vec<u32>>());
        }
    }
}
