use crossbeam_channel::{Receiver, Sender, TryRecvError};
use reflux::{
    get_channel, Inbox, Outbox,
    accept_batch, channel_capacity, control, filter_batch, filter_received, forward_batch,
    funnel_finish, receive_batch, relay, Accumulation, Broadcast,
    BroadcastError, Control, Delivery, Funnel, FunnelTurn, InputStep, Message, Messenger,
    RecvFailure, Relay, RouteError, Router, TransformerEffectType, TransformerPorts,
    TransformerResult, TransformerState, YieldAction,
};

/// Opens a channel through the library and gives back its two crossbeam halves.
fn raw_channel<T>(data_limit: usize) -> (Sender<T>, Receiver<T>) {
    let (tx, rx) = get_channel(data_limit);
    (tx.into_sender(), rx.into_receiver())
}

#[test]
fn channel_capacity_follows_data_limit() {
    assert_eq!(channel_capacity(0), None);
    assert_eq!(channel_capacity(7), Some(7));
    let (tx, _rx) = raw_channel::<u8>(0);
    assert_eq!(tx.capacity(), None);
    let (tx, _rx) = raw_channel::<u8>(5);
    assert_eq!(tx.capacity(), Some(5));
    let (tx, _rx) = raw_channel::<u8>(1);
    assert_eq!(tx.capacity(), Some(1));
}

#[test]
fn receive_and_send_round_trip() {
    let (tx, rx) = raw_channel::<Vec<u32>>(0);
    assert!(matches!(relay(&mut Outbox::new(tx), vec![9]), Relay::Sent));
    let mut rx = Inbox::new(rx);
    assert_eq!(receive_batch(&mut rx, 10), Some(vec![9]));
    assert_eq!(receive_batch(&mut rx, 10), None);
    let mut acc = Accumulation::new();
    let (item_tx, item_rx) = raw_channel::<u32>(0);
    item_tx.send(6).unwrap();
    let mut item_rx = Inbox::new(item_rx);
    assert!(acc.poll(&mut item_rx, 10));
    assert!(!acc.poll(&mut item_rx, 10));
    drop(item_tx);
    assert!(!acc.poll(&mut item_rx, 10));
    assert_eq!(acc.take_batch(), Some(vec![6]));
}

#[test]
fn relay_to_disconnected_gives_message_back() {
    let (tx, rx) = raw_channel::<u32>(3);
    drop(rx);
    assert!(matches!(relay(&mut Outbox::new(tx), 42), Relay::Refused(42)));
}

#[test]
fn stop_wins_over_pause() {
    assert_eq!(control(true, Some(true)), Control::Stop);
    assert_eq!(control(true, None), Control::Stop);
    assert_eq!(control(false, Some(true)), Control::Pause);
    assert_eq!(control(false, Some(false)), Control::Run);
    assert_eq!(control(false, None), Control::Run);
}

#[test]
fn router_rotates_over_three_subscribers() {
    let mut router = Router::new();
    let mut outs = Vec::new();
    for _ in 0..3 {
        let (tx, rx) = raw_channel::<u32>(0);
        router.subscribe(tx);
        outs.push(rx);
    }
    let mut targets = Vec::new();
    for i in 0..7u32 {
        targets.push(router.dispatch(i).ok().unwrap());
    }
    assert_eq!(targets, vec![0, 1, 2, 0, 1, 2, 0]);
    assert_eq!(outs[0].try_iter().collect::<Vec<_>>(), vec![0, 3, 6]);
    assert_eq!(outs[1].try_iter().collect::<Vec<_>>(), vec![1, 4]);
    assert_eq!(outs[2].try_iter().collect::<Vec<_>>(), vec![2, 5]);
}

#[test]
fn router_without_subscribers_gives_data_back() {
    let mut router = Router::<u32>::new();
    assert!(matches!(router.dispatch(5), Err(RouteError::NoSubscriber(5))));
}

#[test]
fn router_keeps_turn_when_subscriber_is_gone() {
    let mut router = Router::new();
    let (tx0, rx0) = raw_channel::<u32>(0);
    let (tx1, rx1) = raw_channel::<u32>(0);
    router.subscribe(tx0);
    router.subscribe(tx1);
    drop(rx0);
    assert!(matches!(router.dispatch(1), Err(RouteError::Disconnected(1))));
    assert!(matches!(router.dispatch(2), Err(RouteError::Disconnected(2))));
    drop(rx1);
}

#[test]
fn accumulation_releases_everything_in_order() {
    let (out, batches) = raw_channel::<Vec<u32>>(0);
    let mut out = Outbox::new(out);
    let mut acc = Accumulation::new();
    assert_eq!(acc.flush(&mut out), Ok(false));
    acc.accept(1);
    acc.accept(2);
    assert_eq!(acc.flush(&mut out), Ok(true));
    assert_eq!(acc.flush(&mut out), Ok(false));
    assert!(!acc.take_in(Err(RecvFailure::Timeout)));
    assert!(acc.take_in(Ok(3)));
    assert_eq!(acc.take_batch(), Some(vec![3]));
    assert_eq!(acc.take_batch(), None);
    assert_eq!(batches.try_iter().collect::<Vec<_>>(), vec![vec![1, 2]]);
}

#[test]
fn accumulation_flush_to_closed_output_gives_batch_back() {
    let (out, batches) = raw_channel::<Vec<u32>>(0);
    drop(batches);
    let mut acc = Accumulation::new();
    acc.accept(8);
    assert_eq!(acc.flush(&mut Outbox::new(out)), Err(vec![8]));
    assert_eq!(acc.take_batch(), None);
}

#[test]
fn filter_keeps_order_and_only_accepted_items() {
    let even = |x: &u32| x % 2 == 0;
    assert_eq!(filter_batch(vec![1, 2, 3, 4, 6, 7], &even), vec![2, 4, 6]);
    assert_eq!(filter_batch(vec![2, 4], &even), vec![2, 4]);
    assert_eq!(filter_batch(vec![1, 3], &even), Vec::<u32>::new());
    assert_eq!(filter_received(Ok(vec![5, 8]), &even), Some(vec![8]));
    assert_eq!(filter_received(Err(RecvFailure::Timeout), &even), None);
}

#[test]
fn broadcast_channel_gets_every_batch() {
    let mut b = Broadcast::<u8>::new(4);
    let (tx, rx1) = raw_channel(0);
    b.subscribe(tx);
    let rx2 = b.channel().into_receiver();
    assert_eq!(b.publish(&vec![1, 2]), Ok(()));
    assert_eq!(rx1.recv().unwrap(), vec![1, 2]);
    assert_eq!(rx2.recv().unwrap(), vec![1, 2]);
}

#[test]
fn broadcast_names_the_disconnected_subscriber() {
    let mut b = Broadcast::<u8>::new(0);
    let (tx0, rx0) = raw_channel(0);
    let (tx1, rx1) = raw_channel(0);
    b.subscribe(tx0);
    b.subscribe(tx1);
    drop(rx1);
    assert_eq!(b.publish(&vec![3]), Err(BroadcastError::Disconnected(1)));
    assert_eq!(rx0.recv().unwrap(), vec![3]);
}

#[test]
fn messenger_latest_subscription_wins() {
    let mut m = Messenger::<u32, u32>::new();
    let (tx_a, rx_a) = raw_channel(0);
    let (tx_b, rx_b) = raw_channel(0);
    m.subscribe(1, tx_a);
    m.subscribe(1, tx_b);
    assert!(matches!(m.deliver(Message { id: 1, message: 10 }), Delivery::Delivered));
    assert_eq!(rx_b.try_recv(), Ok(10));
    assert_eq!(rx_a.try_recv(), Err(TryRecvError::Disconnected));
}

#[test]
fn messenger_drops_unknown_ids() {
    let mut m = Messenger::<u32, u32>::new();
    assert!(matches!(m.deliver(Message { id: 2, message: 7 }), Delivery::NoRecipient(7)));
    let mut m = Messenger::<u32, u32>::new();
    let (tx, rx) = raw_channel(0);
    m.subscribe(3, tx);
    drop(rx);
    assert!(matches!(m.deliver(Message { id: 3, message: 4 }), Delivery::Refused(4)));
    assert!(m.recipient(&3).is_some());
    assert!(m.recipient(&4).is_none());
}

#[test]
fn funnel_rotates_its_sources() {
    let (queue_tx, queue_rx) = raw_channel(0);
    let (out, collected) = raw_channel::<u8>(0);
    let mut funnel = Funnel::new(Outbox::new(queue_tx.clone()));
    let mut requeue = Outbox::new(queue_tx);
    let mut out = Outbox::new(out);
    let mut queue_in = Inbox::new(queue_rx);
    let (a_tx, a_rx) = raw_channel(0);
    let (b_tx, b_rx) = raw_channel(0);
    assert!(funnel.add_source(a_rx).is_ok());
    assert!(funnel.add_source(b_rx).is_ok());
    for v in [1u8, 2, 3] {
        a_tx.send(v).unwrap();
    }
    b_tx.send(10).unwrap();
    for _ in 0..4 {
        assert!(matches!(
            reflux::funnel_step(&mut queue_in, &mut requeue, &mut out, 10),
            FunnelTurn::Rotated { .. }
        ));
    }
    assert_eq!(collected.try_iter().collect::<Vec<_>>(), vec![1, 10, 2]);
}

#[test]
fn funnel_finish_reports_closed_output_and_queue() {
    let (queue_tx, queue_rx) = raw_channel::<crossbeam_channel::Receiver<u8>>(0);
    let (out, collected) = raw_channel::<u8>(0);
    let mut queue_tx = Outbox::new(queue_tx);
    let mut out = Outbox::new(out);
    let (_s_tx, s_rx) = raw_channel::<u8>(0);
    assert!(matches!(funnel_finish(s_rx, Err(RecvFailure::Timeout), &mut queue_tx, &mut out), FunnelTurn::Rotated { forwarded: false }));
    let src = queue_rx.try_recv().unwrap();
    drop(collected);
    assert!(matches!(funnel_finish(src, Ok(5), &mut queue_tx, &mut out), FunnelTurn::OutputClosed(5, _)));
    drop(queue_rx);
    let (_t_tx, t_rx) = raw_channel::<u8>(0);
    assert!(matches!(funnel_finish(t_rx, Err(RecvFailure::Timeout), &mut queue_tx, &mut out), FunnelTurn::QueueClosed(_)));
}

#[test]
fn extractor_never_sends_empty_batches() {
    let (tx, rx) = raw_channel::<Vec<u8>>(0);
    let mut tx = Outbox::new(tx);
    assert!(matches!(forward_batch(&mut tx, Vec::new()), Relay::Idle));
    assert!(matches!(forward_batch(&mut tx, vec![4]), Relay::Sent));
    assert_eq!(rx.try_iter().collect::<Vec<_>>(), vec![vec![4]]);
    assert_eq!(accept_batch::<u8>(Err(RecvFailure::Disconnected)), None);
}

#[test]
fn transformer_fatal_effect_ends_run() {
    let mut s = TransformerState::new();
    assert!(matches!(s.on_input::<u8>(Ok(vec![1])), InputStep::Resume { fresh: false, data: Some(_) }));
    let a = s.on_yield(TransformerResult::<u8, u8, u8>::Effect(TransformerEffectType::Critical(vec![1])));
    assert!(matches!(a, YieldAction::Report(TransformerEffectType::Critical(_))));
    assert_eq!(s, TransformerState { is_running: false, coro_completed: true });
    assert!(matches!(s.on_input::<u8>(Err(RecvFailure::Timeout)), InputStep::Idle));
    assert!(matches!(s.on_input::<u8>(Ok(vec![2])), InputStep::Resume { fresh: true, data: Some(_) }));
    assert_eq!(s, TransformerState { is_running: false, coro_completed: false });
    assert!(!s.on_complete());
}

#[test]
fn transformer_other_yields_keep_running() {
    let mut s = TransformerState::new();
    let _ = s.on_input::<u8>(Ok(vec![1]));
    assert!(matches!(s.on_yield(TransformerResult::<u8, u8, u8>::Output(vec![3])), YieldAction::Emit(_)));
    assert!(matches!(s.on_yield(TransformerResult::<u8, u8, u8>::Consume(vec![4])), YieldAction::Requeue(_)));
    assert!(matches!(
        s.on_yield(TransformerResult::<u8, u8, u8>::Effect(TransformerEffectType::Warning(vec![]))),
        YieldAction::Report(_)
    ));
    assert!(s.is_running);
    assert!(s.on_complete());
    assert!(matches!(s.on_input::<u8>(Err(RecvFailure::Timeout)), InputStep::Resume { fresh: false, data: None }));
    assert!(matches!(s.on_yield(TransformerResult::<u8, u8, u8>::Terminate(None)), YieldAction::Nothing));
    assert!(!s.is_running);
}

#[test]
fn transformer_ports_route_each_action() {
    let (in_tx, in_rx) = raw_channel::<Vec<u8>>(0);
    let (out_tx, out_rx) = raw_channel::<Vec<u8>>(0);
    let (eff_tx, eff_rx) = raw_channel::<TransformerEffectType<u8>>(0);
    let mut ports = TransformerPorts {
        input: Outbox::new(in_tx),
        output: Outbox::new(out_tx),
        effects: Outbox::new(eff_tx),
    };
    assert!(ports.perform(YieldAction::Emit(vec![1])).is_ok());
    assert!(ports.perform(YieldAction::Requeue(vec![2])).is_ok());
    assert!(ports.perform(YieldAction::Report(TransformerEffectType::Info(vec![3]))).is_ok());
    assert!(ports.perform(YieldAction::Nothing).is_ok());
    assert_eq!(out_rx.try_recv(), Ok(vec![1]));
    assert_eq!(in_rx.try_recv(), Ok(vec![2]));
    assert!(matches!(eff_rx.try_recv(), Ok(TransformerEffectType::Info(v)) if v == vec![3]));
    drop(out_rx);
    assert!(matches!(ports.perform(YieldAction::Emit(vec![9])), Err(YieldAction::Emit(v)) if v == vec![9]));
}

#[test]
fn effect_severity() {
    assert!(TransformerEffectType::<u8>::Emergency(vec![]).aborts());
    assert!(TransformerEffectType::<u8>::Critical(vec![]).aborts());
    assert!(!TransformerEffectType::<u8>::Alert(vec![]).aborts());
    assert!(!TransformerEffectType::<u8>::Debug(vec![]).aborts());
}

#[test]
fn channel_halves_belong_together() {
    let (mut tx, rx) = get_channel::<u32>(2);
    assert!(matches!(relay(&mut tx, 1), Relay::Sent));
    assert!(matches!(relay(&mut tx, 2), Relay::Sent));
    let tx = tx.into_sender();
    let rx = rx.into_receiver();
    assert_eq!(tx.capacity(), Some(2));
    assert_eq!(rx.capacity(), Some(2));
    assert_eq!(rx.try_iter().collect::<Vec<_>>(), vec![1, 2]);
}

#[test]
fn oversized_channels_are_refused() {
    assert!(reflux::capacity_fits::<u64>(1000));
    assert!(!reflux::capacity_fits::<u64>(usize::MAX));
    assert!(reflux::try_get_channel::<u64>(usize::MAX).is_none());
    let (tx, _rx) = reflux::try_get_channel::<u64>(0).unwrap();
    assert_eq!(tx.into_sender().capacity(), None);
    let mut b = Broadcast::<u64>::new(usize::MAX);
    assert!(b.try_channel().is_none());
    let mut b = Broadcast::<u64>::new(3);
    let rx = b.try_channel().unwrap().into_receiver();
    assert_eq!(rx.capacity(), Some(3));
}

#[test]
fn filtering_in_parts_matches_filtering_whole() {
    let odd = |x: &u32| x % 2 == 1;
    let whole = filter_batch(vec![1, 2, 3, 4, 5], &odd);
    let mut parts = filter_batch(vec![1, 2], &odd);
    parts.extend(filter_batch(vec![3, 4, 5], &odd));
    assert_eq!(whole, parts);
    assert_eq!(whole, vec![1, 3, 5]);
}

#[test]
fn loader_keeps_only_nonempty_batches_in_order() {
    let (tx, rx) = raw_channel::<Vec<u8>>(0);
    tx.send(vec![1]).unwrap();
    tx.send(vec![]).unwrap();
    tx.send(vec![2, 3]).unwrap();
    let mut rx = Inbox::new(rx);
    assert_eq!(receive_batch(&mut rx, 10), Some(vec![1]));
    assert_eq!(receive_batch(&mut rx, 10), None);
    assert_eq!(receive_batch(&mut rx, 10), Some(vec![2, 3]));
    assert_eq!(receive_batch(&mut rx, 10), None);
}

#[test]
fn two_filters_in_a_row_equal_one_with_both_predicates() {
    let small = |x: &u32| *x < 10;
    let even = |x: &u32| x % 2 == 0;
    let both = |x: &u32| *x < 10 && x % 2 == 0;
    let data = vec![1, 2, 12, 4, 7, 8, 20];
    let twice = filter_batch(filter_batch(data.clone(), &small), &even);
    assert_eq!(twice, filter_batch(data.clone(), &both));
    assert_eq!(twice, vec![2, 4, 8]);
    let once = filter_batch(data.clone(), &small);
    assert_eq!(filter_batch(once.clone(), &small), once);
}

#[test]
fn resume_context_clones_globals_and_hands_over_the_batch() {
    let globals = vec![7u8];
    let ctx = reflux::TransformerContext::for_resume(&globals, Some(vec![1, 2]));
    assert_eq!(ctx.globals, vec![7]);
    assert_eq!(ctx.data, Some(vec![1, 2]));
    let ctx = reflux::TransformerContext::<Vec<u8>, Vec<u8>>::for_resume(&globals, None);
    assert_eq!(ctx.data, None);
}
