use std::cell::Cell;
use std::sync::atomic::AtomicBool;
use std::sync::{Arc, Mutex};
use std::time::Duration;

use crossbeam_channel::{Receiver, Sender};
use reflux::{
    get_channel, Inbox, Outbox,
    accept_batch, control, forward_batch, funnel_step, receive_batch,
    filter_step, Accumulation, Broadcast, Control, FnContext, Funnel, FunnelTurn, InputStep,
    Message, Messenger, Relay, Router, TransformerContext, TransformerEffectType,
    TransformerPorts, TransformerResult, TransformerState,
};

/// Opens a channel through the library and gives back its two crossbeam halves.
fn raw_channel<T>(data_limit: usize) -> (Sender<T>, Receiver<T>) {
    let (tx, rx) = get_channel(data_limit);
    (tx.into_sender(), rx.into_receiver())
}

type Routine<I, O, E, G> = Box<dyn FnMut(TransformerContext<Vec<I>, G>) -> Option<TransformerResult<I, O, E>>>;

/// Runs a transformer's worker for `passes` passes of its outer loop, the way
/// the worker thread does, with `make` standing for the routine factory: the
/// routine returns `None` once it has completed.
fn drive<I: Clone, O, E, G: Clone>(
    make: &dyn Fn() -> Routine<I, O, E, G>,
    globals: G,
    in_rx: &mut Inbox<Vec<I>>,
    ports: &mut TransformerPorts<I, O, E>,
    passes: usize,
) {
    for _ in 0..passes {
        let mut routine = make();
        let mut state = TransformerState::new();
        loop {
            let data = match state.receive(in_rx, 10) {
                InputStep::Idle => break,
                InputStep::Resume { fresh, data } => {
                    if fresh {
                        routine = make();
                    }
                    data
                }
            };
            loop {
                let ctx = TransformerContext::for_resume(&globals, data.clone());
                match routine(ctx) {
                    Some(r) => {
                        let action = state.on_yield(r);
                        assert!(ports.perform(action).is_ok());
                        break;
                    }
                    None => {
                        if state.on_complete() {
                            routine = make();
                        } else {
                            panic!("routine resumed after completion");
                        }
                    }
                }
            }
        }
    }
}

fn new_ctx<I, D>(init_data: I) -> FnContext<I, D> {
    FnContext {
        init_data,
        data: Arc::new(Mutex::new(Cell::new(Vec::new()))),
        stop_sig: Arc::new(AtomicBool::new(false)),
        pause_sig: None,
    }
}

#[test]
fn extractor_works() {
    let extract_fn = |ctx: FnContext<(), String>| {
        let data_vec = ctx.data.lock().unwrap();
        data_vec.set(vec![String::from("Hello"), String::from("world")]);
    };
    let (tx, inlet_chan) = raw_channel::<Vec<String>>(100);
    let ctx = new_ctx::<(), String>(());

    assert_eq!(control(false, None), Control::Run);
    extract_fn(ctx.clone());
    let batch = ctx.data.try_lock().unwrap().take();
    assert!(matches!(forward_batch(&mut Outbox::new(tx), batch), Relay::Sent));

    let data = inlet_chan.recv().unwrap();
    assert_eq!(control(true, None), Control::Stop);
    assert_eq!(data, vec![String::from("Hello"), String::from("world")]);
}

#[test]
fn loader_works() {
    let (test_tx, test_rx) = raw_channel(0);
    let loader_fn = move |test: FnContext<(), String>| {
        let mut data = test.data.lock().unwrap();
        if data.get_mut().len() > 0 {
            test_tx.send(data.take()).unwrap();
        }
    };
    let (data_tx, receiver) = raw_channel::<Vec<String>>(50);
    let ctx = new_ctx::<(), String>(());

    data_tx.send(vec!["Hello".to_string(), "world".to_string()]).unwrap();

    let batch = receive_batch(&mut Inbox::new(receiver), 10).unwrap();
    ctx.data.lock().unwrap().set(batch);
    loader_fn(ctx.clone());

    let data_recv = test_rx.recv().unwrap();
    assert_eq!(data_recv, vec!["Hello".to_string(), "world".to_string()]);
}

#[test]
fn broadcast_works() {
    let (input_tx, input_rx) = raw_channel::<Vec<String>>(0);
    let (output1_tx, output1_rx) = raw_channel(0);
    let (output2_tx, output2_rx) = raw_channel(0);

    let mut broadcast = Broadcast::new(100);
    broadcast.subscribe(output1_tx);
    broadcast.subscribe(output2_tx);

    input_tx.send(vec!["Hello".to_string(), "World".to_string()]).unwrap();
    let data = input_rx.recv_timeout(Duration::from_millis(10)).unwrap();
    assert_eq!(broadcast.publish(&data), Ok(()));

    assert_eq!(output1_rx.recv().unwrap(), vec!["Hello".to_string(), "World".to_string()]);
    assert_eq!(output2_rx.recv().unwrap(), vec!["Hello".to_string(), "World".to_string()]);
}

#[test]
fn router_works() {
    let (tx, rx) = raw_channel::<String>(0);
    let mut router = Router::new();

    let (in1, out1) = raw_channel(0);
    let (in2, out2) = raw_channel(0);
    router.subscribe(in1);
    router.subscribe(in2);

    tx.send("hello".to_string()).unwrap();
    tx.send("there".to_string()).unwrap();
    tx.send("beautiful".to_string()).unwrap();
    tx.send("world".to_string()).unwrap();

    for _ in 0..4 {
        let data = rx.recv_timeout(Duration::from_millis(10)).unwrap();
        assert!(router.dispatch(data).is_ok());
    }

    let out1_res = out1.recv().unwrap();
    let out2_res = out2.recv().unwrap();
    let out3_res = out1.recv().unwrap();
    let out4_res = out2.recv().unwrap();

    assert_eq!(out1_res, "hello".to_string());
    assert_eq!(out2_res, "there".to_string());
    assert_eq!(out3_res, "beautiful".to_string());
    assert_eq!(out4_res, "world".to_string());
}

#[test]
fn filter_works() {
    let fun = |data: &String| -> bool { data.contains("hello") };

    let input_data = vec![
        "hello world".to_string(),
        "goodbye world".to_string(),
        "hello there".to_string(),
    ];
    let expected_data = vec!["hello world".to_string(), "hello there".to_string()];

    let (tx, rx) = raw_channel(0);
    let (sink_tx, filter_sink) = raw_channel(0);

    tx.send(input_data).unwrap();
    assert!(matches!(filter_step(&mut Inbox::new(rx), &mut Outbox::new(sink_tx), &fun, 10), Relay::Sent));
    let data = filter_sink.recv().unwrap();

    assert_eq!(data, expected_data);
}

#[test]
fn transformer_works() {
    let array = vec![1, 3, 5, 7, 9];
    let make = || -> Routine<i32, i32, String, i32> {
        let mut step = 0;
        let mut result = Vec::new();
        Box::new(move |context: TransformerContext<Vec<i32>, i32>| {
            step += 1;
            match step {
                1 => {
                    let multiplier = context.globals;
                    let data = context.data.unwrap().clone();
                    for item in data.into_iter() {
                        result.push(item * multiplier)
                    }
                    Some(TransformerResult::Effect(TransformerEffectType::Debug(vec![
                        "Function completed".to_string(),
                    ])))
                }
                2 => Some(TransformerResult::Terminate(Some(result.clone()))),
                _ => None,
            }
        })
    };

    let (input_sink, in_rx) = raw_channel(100);
    let (out_tx, output_source) = raw_channel(100);
    let (err_tx, effect) = raw_channel(100);
    let mut ports = TransformerPorts {
        input: Outbox::new(input_sink.clone()),
        output: Outbox::new(out_tx),
        effects: Outbox::new(err_tx),
    };

    input_sink.send(array).unwrap();
    drive(&make, 2, &mut Inbox::new(in_rx), &mut ports, 1);

    match effect.recv().unwrap() {
        TransformerEffectType::Debug(val) => {
            assert_eq!(val, vec!["Function completed".to_string()])
        }
        _ => panic!("Invalid variant"),
    }
    let result: Vec<i32> = output_source.recv().unwrap();
    assert_eq!(result, vec![2, 6, 10, 14, 18]);
}

#[test]
fn funnel_works() {
    let (recv_sink, recv_source) = raw_channel::<Receiver<String>>(0);
    let (out_tx, funnel_out) = raw_channel(0);
    let mut funnel = Funnel::new(Outbox::new(recv_sink.clone()));
    let mut requeue = Outbox::new(recv_sink);
    let mut out = Outbox::new(out_tx);
    let mut queue = Inbox::new(recv_source);

    let (rx1, tx1) = raw_channel(0);
    let (rx2, tx2) = raw_channel(0);
    let (rx3, tx3) = raw_channel(0);

    assert!(funnel.add_source(tx1).is_ok());
    assert!(funnel.add_source(tx2).is_ok());
    assert!(funnel.add_source(tx3).is_ok());

    rx1.send("hello".to_string()).unwrap();
    rx2.send("beautiful".to_string()).unwrap();
    rx3.send("world".to_string()).unwrap();

    for _ in 0..3 {
        assert!(matches!(
            funnel_step(&mut queue, &mut requeue, &mut out, 10),
            FunnelTurn::Rotated { forwarded: true }
        ));
    }

    let str1 = funnel_out.recv().unwrap();
    let str2 = funnel_out.recv().unwrap();
    let str3 = funnel_out.recv().unwrap();

    assert_eq!(str1, "hello");
    assert_eq!(str2, "beautiful");
    assert_eq!(str3, "world");
}

#[test]
fn messenger_works() {
    let (messenger_sender, rx) = raw_channel(0);
    let mut messenger = Messenger::new();

    let (tx1, rx1) = raw_channel(0);
    let (tx2, rx2) = raw_channel(0);
    let (tx3, rx3) = raw_channel(0);

    messenger.subscribe("hello", tx1);
    messenger.subscribe("beautiful", tx3);
    messenger.subscribe("world", tx2);

    messenger_sender.send(Message { id: "beautiful", message: 330 }).unwrap();
    messenger_sender.send(Message { id: "world", message: 5 }).unwrap();
    messenger_sender.send(Message { id: "hello", message: 66 }).unwrap();

    for _ in 0..3 {
        let msg = rx.recv_timeout(Duration::from_millis(10)).unwrap();
        assert!(matches!(messenger.deliver(msg), reflux::Delivery::Delivered));
    }

    let res1 = rx1.recv().unwrap();
    let res2 = rx2.recv().unwrap();
    let res3 = rx3.recv().unwrap();

    assert_eq!(res1, 66);
    assert_eq!(res2, 5);
    assert_eq!(res3, 330);
}

#[test]
fn accumulator_works() {
    let (src_tx, src_rx) = raw_channel(0);
    let (a_tx, accumulate_chan) = raw_channel(0);
    let mut acc = Accumulation::new();

    src_tx.send("hello").unwrap();
    src_tx.send("there").unwrap();
    src_tx.send("world").unwrap();

    let mut src_rx = Inbox::new(src_rx);
    while acc.poll(&mut src_rx, 50) {}
    assert_eq!(acc.flush(&mut Outbox::new(a_tx)), Ok(true));

    let result = accumulate_chan.recv().unwrap();
    assert_eq!(result, vec!["hello", "there", "world"]);
}

fn effect_script(effects: Vec<TransformerEffectType<String>>) -> impl Fn() -> Routine<(), (), String, ()> {
    move || -> Routine<(), (), String, ()> {
        let mut steps: Vec<TransformerResult<(), (), String>> =
            effects.iter().cloned().map(TransformerResult::Effect).collect();
        steps.push(TransformerResult::Terminate(None));
        steps.reverse();
        Box::new(move |_ctx| steps.pop())
    }
}

#[test]
fn transformer_emerg_effect() {
    let make = effect_script(vec![
        TransformerEffectType::Emergency(vec!["Emergency effect".to_string()]),
        TransformerEffectType::Debug(vec!["Invalid effect".to_string()]),
    ]);
    let (input_sink, in_rx) = raw_channel(100);
    let (out_tx, _o) = raw_channel(100);
    let (err_tx, effect) = raw_channel(100);
    let mut ports = TransformerPorts {
        input: Outbox::new(input_sink.clone()),
        output: Outbox::new(out_tx),
        effects: Outbox::new(err_tx),
    };

    input_sink.send(vec![()]).unwrap();
    drive(&make, (), &mut Inbox::new(in_rx), &mut ports, 2);

    match effect.recv().unwrap() {
        TransformerEffectType::Emergency(val) => {
            assert_eq!(val, vec!["Emergency effect".to_string()])
        }
        _ => panic!("Invalid variant"),
    };
    match effect.try_recv() {
        Err(val) => assert!(val.is_empty(), "{}", true),
        _ => panic!("Transformer did not abort"),
    }
}

#[test]
fn transformer_crit_effect() {
    let make = effect_script(vec![
        TransformerEffectType::Critical(vec!["Emergency effect".to_string()]),
        TransformerEffectType::Debug(vec!["Invalid effect".to_string()]),
    ]);
    let (input_sink, in_rx) = raw_channel(100);
    let (out_tx, _o) = raw_channel(100);
    let (err_tx, effect) = raw_channel(100);
    let mut ports = TransformerPorts {
        input: Outbox::new(input_sink.clone()),
        output: Outbox::new(out_tx),
        effects: Outbox::new(err_tx),
    };

    input_sink.send(vec![()]).unwrap();
    drive(&make, (), &mut Inbox::new(in_rx), &mut ports, 2);

    match effect.recv().unwrap() {
        TransformerEffectType::Critical(val) => {
            assert_eq!(val, vec!["Emergency effect".to_string()])
        }
        _ => panic!("Invalid variant"),
    };
    match effect.try_recv() {
        Err(val) => assert!(val.is_empty(), "{}", true),
        _ => panic!("Transformer did not abort"),
    }
}

#[test]
fn transformer_effect() {
    let make = effect_script(vec![
        TransformerEffectType::Alert(vec!["This is an alert".to_string()]),
        TransformerEffectType::Error(vec!["This is an error".to_string()]),
        TransformerEffectType::Info(vec!["This is an info".to_string()]),
        TransformerEffectType::Warning(vec!["This is a warning".to_string()]),
        TransformerEffectType::Notice(vec!["This is a notice".to_string()]),
        TransformerEffectType::Debug(vec!["This is a debug".to_string()]),
    ]);
    let (input_sink, in_rx) = raw_channel(100);
    let (out_tx, _o) = raw_channel(100);
    let (err_tx, effect) = raw_channel(100);
    let mut ports = TransformerPorts {
        input: Outbox::new(input_sink.clone()),
        output: Outbox::new(out_tx),
        effects: Outbox::new(err_tx),
    };

    input_sink.send(vec![()]).unwrap();
    drive(&make, (), &mut Inbox::new(in_rx), &mut ports, 1);

    match effect.recv().unwrap() {
        TransformerEffectType::Alert(val) => assert_eq!(val, vec!["This is an alert".to_string()]),
        _ => panic!("Invalid variant"),
    };
    match effect.recv().unwrap() {
        TransformerEffectType::Error(val) => assert_eq!(val, vec!["This is an error".to_string()]),
        _ => panic!("Invalid variant"),
    };
    match effect.recv().unwrap() {
        TransformerEffectType::Info(val) => assert_eq!(val, vec!["This is an info".to_string()]),
        _ => panic!("Invalid variant"),
    };
    match effect.recv().unwrap() {
        TransformerEffectType::Warning(val) => {
            assert_eq!(val, vec!["This is a warning".to_string()])
        }
        _ => panic!("Invalid variant"),
    };
    match effect.recv().unwrap() {
        TransformerEffectType::Notice(val) => {
            assert_eq!(val, vec!["This is a notice".to_string()])
        }
        _ => panic!("Invalid variant"),
    };
    match effect.recv().unwrap() {
        TransformerEffectType::Debug(val) => assert_eq!(val, vec!["This is a debug".to_string()]),
        _ => panic!("Invalid variant"),
    };
}

#[test]
fn loader_skips_empty_batches() {
    assert_eq!(accept_batch::<u8>(Ok(Vec::new())), None);
    assert_eq!(accept_batch::<u8>(Ok(vec![1])), Some(vec![1]));
}
