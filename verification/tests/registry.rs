use actix::dev::channel::{channel, AddressReceiver};
use actix::{Actor, Addr, Context, Handler, System};
use futures::future::{lazy, Future};
use std::sync::{Arc, Mutex};
use websocket_chat::seqno::ConnectionSeq;
use websocket_chat::server::{
    BroadcastReport, ChatServer, Connect, Delivery, Disconnect, OutboundMessage, SessionHandle,
    BROADCAST_INTERVAL,
};
use websocket_chat::session::{Command, Frame};

struct Client;

impl Actor for Client {
    type Context = Context<Self>;
}

impl Handler<OutboundMessage> for Client {
    type Result = ();

    fn handle(&mut self, _msg: OutboundMessage, _ctx: &mut Context<Self>) {}
}

/// A handle to a mailbox that stays open as long as the receiver lives.
fn mailbox() -> (SessionHandle, AddressReceiver<Client>) {
    let (tx, rx) = channel::<Client>(16);
    (SessionHandle(Addr::new(tx).recipient()), rx)
}

/// A handle to a mailbox whose receiver is gone.
fn dead_mailbox() -> SessionHandle {
    let (handle, rx) = mailbox();
    drop(rx);
    handle
}

/// Runs `work` on a task of the futures runtime.
fn on_task<R>(work: impl FnOnce() -> R) -> R {
    match lazy(move || Ok::<R, ()>(work())).wait() {
        Ok(done) => done,
        Err(()) => unreachable!(),
    }
}

/// One broadcast, made on a task.
fn tick(server: &mut ChatServer) -> BroadcastReport {
    on_task(|| server.broadcast_active_connections()).unwrap()
}

fn sorted(mut ids: Vec<usize>) -> Vec<usize> {
    ids.sort();
    ids
}

fn outcome(deliveries: &Vec<Delivery>) -> Vec<(usize, bool)> {
    let mut pairs: Vec<(usize, bool)> = deliveries.iter().map(|d| (d.id, d.accepted)).collect();
    pairs.sort();
    pairs
}

/// Carries out what a session asks of the registry.
fn carry_out(server: &mut ChatServer, commands: Vec<Command>) {
    for command in commands {
        match command {
            Command::Register(msg) => server.register(msg),
            Command::Unregister(msg) => server.unregister(msg),
            _ => {}
        }
    }
}

/// A client that writes down what it is sent and stops the system once
/// `expected` messages are down.
struct Recorder {
    id: usize,
    log: Arc<Mutex<Vec<(usize, String)>>>,
    expected: usize,
}

impl Actor for Recorder {
    type Context = Context<Self>;
}

impl Handler<OutboundMessage> for Recorder {
    type Result = ();

    fn handle(&mut self, msg: OutboundMessage, _ctx: &mut Context<Self>) {
        let mut log = self.log.lock().unwrap();
        log.push((self.id, msg.0));
        if log.len() == self.expected {
            System::current().stop();
        }
    }
}

#[test]
fn broadcast_interval_is_five_seconds() {
    assert_eq!(BROADCAST_INTERVAL, 5_000_000_000);
}

#[test]
fn new_registry_is_empty() {
    let server = ChatServer::new();
    assert_eq!(server.size(), 0);
    assert!(server.ids().is_empty());
    assert!(!server.contains(0));
}

#[test]
fn default_registry_is_empty() {
    let server = ChatServer::default();
    assert_eq!(server.size(), 0);
}

#[test]
fn register_tracks_the_session() {
    let mut server = ChatServer::new();
    let (a, _keep) = mailbox();
    server.register(Connect { id: 5, addr: a });
    assert_eq!(server.size(), 1);
    assert!(server.contains(5));
    assert!(!server.contains(4));
    assert_eq!(server.ids(), vec![5]);
}

#[test]
fn register_under_a_known_id_replaces_the_handle() {
    let mut server = ChatServer::new();
    let (a, _keep) = mailbox();
    server.register(Connect { id: 5, addr: a });
    server.register(Connect { id: 5, addr: dead_mailbox() });
    assert_eq!(server.size(), 1);
    let report = tick(&mut server);
    assert_eq!(report.message, "1 active");
    assert_eq!(outcome(&report.deliveries), vec![(5, false)]);
    assert_eq!(server.size(), 0);
}

#[test]
fn unregister_forgets_the_session() {
    let mut server = ChatServer::new();
    let (a, _keep_a) = mailbox();
    let (b, _keep_b) = mailbox();
    server.register(Connect { id: 0, addr: a });
    server.register(Connect { id: 1, addr: b });
    server.unregister(Disconnect { id: 0 });
    assert_eq!(server.size(), 1);
    assert!(!server.contains(0));
    assert!(server.contains(1));
}

#[test]
fn unregister_twice_removes_once() {
    let mut server = ChatServer::new();
    let (a, _keep_a) = mailbox();
    let (b, _keep_b) = mailbox();
    server.register(Connect { id: 0, addr: a });
    server.register(Connect { id: 1, addr: b });
    server.unregister(Disconnect { id: 1 });
    assert_eq!(server.size(), 1);
    server.unregister(Disconnect { id: 1 });
    assert_eq!(server.size(), 1);
    assert!(server.contains(0));
}

#[test]
fn unregister_of_an_unknown_id_changes_nothing() {
    let mut server = ChatServer::new();
    server.unregister(Disconnect { id: 3 });
    assert_eq!(server.size(), 0);
    let (a, _keep) = mailbox();
    server.register(Connect { id: 0, addr: a });
    server.unregister(Disconnect { id: 3 });
    assert_eq!(server.size(), 1);
    assert!(server.contains(0));
}

#[test]
fn size_counts_the_registrations_not_yet_undone() {
    let mut server = ChatServer::new();
    let mut keep = Vec::new();
    let mut id: usize = 0;
    while id < 10 {
        let (handle, rx) = mailbox();
        keep.push(rx);
        server.register(Connect { id, addr: handle });
        id += 1;
        assert_eq!(server.size(), id);
    }
    server.unregister(Disconnect { id: 2 });
    server.unregister(Disconnect { id: 7 });
    server.unregister(Disconnect { id: 7 });
    assert_eq!(server.size(), 8);
    drop(keep.remove(4));
    let report = tick(&mut server);
    assert_eq!(report.message, "8 active");
    assert_eq!(server.size(), 7);
    assert_eq!(sorted(server.ids()), vec![0, 1, 3, 5, 6, 8, 9]);
}

#[test]
fn ids_lists_every_session_once() {
    let mut server = ChatServer::new();
    let mut keep = Vec::new();
    for id in [9usize, 4, 7, 4, 1] {
        let (handle, rx) = mailbox();
        keep.push(rx);
        server.register(Connect { id, addr: handle });
    }
    assert_eq!(sorted(server.ids()), vec![1, 4, 7, 9]);
}

#[test]
fn broadcast_off_a_task_does_nothing() {
    let mut server = ChatServer::new();
    let (a, _keep_a) = mailbox();
    server.register(Connect { id: 0, addr: a });
    server.register(Connect { id: 1, addr: dead_mailbox() });
    assert!(server.broadcast_active_connections().is_none());
    assert_eq!(server.size(), 2);
    assert_eq!(sorted(server.ids()), vec![0, 1]);
    let report = tick(&mut server);
    assert_eq!(report.message, "2 active");
    assert_eq!(server.size(), 1);
}

#[test]
fn broadcast_fills_a_mailbox_without_harm() {
    let mut server = ChatServer::new();
    let (tx, _keep) = channel::<Client>(2);
    server.register(Connect { id: 0, addr: SessionHandle(Addr::new(tx).recipient()) });
    let first = tick(&mut server);
    assert_eq!(outcome(&first.deliveries), vec![(0, true)]);
    let second = tick(&mut server);
    assert_eq!(outcome(&second.deliveries), vec![(0, true)]);
    assert_eq!(server.size(), 1);
    let third = tick(&mut server);
    assert_eq!(third.message, "1 active");
    assert_eq!(outcome(&third.deliveries), vec![(0, false)]);
    assert_eq!(server.size(), 0);
}

#[test]
fn register_and_unregister_move_the_size_by_one() {
    let mut server = ChatServer::new();
    let (a, _keep_a) = mailbox();
    let (b, _keep_b) = mailbox();
    server.register(Connect { id: 3, addr: a });
    assert_eq!(server.size(), 1);
    server.register(Connect { id: 8, addr: b });
    assert_eq!(server.size(), 2);
    server.unregister(Disconnect { id: 8 });
    assert_eq!(server.size(), 1);
    assert_eq!(server.ids(), vec![3]);
    server.unregister(Disconnect { id: 3 });
    assert_eq!(server.size(), 0);
}

#[test]
fn outbound_message_prints_for_debugging() {
    assert_eq!(
        format!("{:?}", OutboundMessage(String::from("3 active"))),
        "OutboundMessage(\"3 active\")"
    );
}

#[test]
fn broadcast_on_an_empty_registry() {
    let mut server = ChatServer::new();
    let report = tick(&mut server);
    assert_eq!(report.message, "0 active");
    assert!(report.deliveries.is_empty());
    assert_eq!(server.size(), 0);
}

#[test]
fn broadcast_makes_one_attempt_per_session() {
    let mut server = ChatServer::new();
    let (a, _keep_a) = mailbox();
    let (b, _keep_b) = mailbox();
    let (c, _keep_c) = mailbox();
    server.register(Connect { id: 10, addr: a });
    server.register(Connect { id: 20, addr: b });
    server.register(Connect { id: 30, addr: c });
    let report = tick(&mut server);
    assert_eq!(report.message, "3 active");
    assert_eq!(outcome(&report.deliveries), vec![(10, true), (20, true), (30, true)]);
    assert_eq!(server.size(), 3);
}

#[test]
fn broadcast_prunes_closed_mailboxes() {
    let mut server = ChatServer::new();
    let (a, _keep_a) = mailbox();
    let (b, _keep_b) = mailbox();
    server.register(Connect { id: 0, addr: a });
    server.register(Connect { id: 1, addr: dead_mailbox() });
    server.register(Connect { id: 2, addr: b });
    assert_eq!(server.size(), 3);

    let report = tick(&mut server);
    assert_eq!(report.message, "3 active");
    assert_eq!(outcome(&report.deliveries), vec![(0, true), (1, false), (2, true)]);
    assert_eq!(server.size(), 2);
    assert!(!server.contains(1));

    let report = tick(&mut server);
    assert_eq!(report.message, "2 active");
    assert_eq!(outcome(&report.deliveries), vec![(0, true), (2, true)]);
    assert_eq!(server.size(), 2);
}

#[test]
fn session_that_dies_between_broadcasts_is_pruned_by_the_next() {
    let mut server = ChatServer::new();
    let (a, keep_a) = mailbox();
    let (b, _keep_b) = mailbox();
    server.register(Connect { id: 0, addr: a });
    server.register(Connect { id: 1, addr: b });
    let report = tick(&mut server);
    assert_eq!(report.message, "2 active");
    assert_eq!(server.size(), 2);

    drop(keep_a);
    let report = tick(&mut server);
    assert_eq!(report.message, "2 active");
    assert_eq!(outcome(&report.deliveries), vec![(0, false), (1, true)]);
    assert_eq!(server.size(), 1);

    let report = tick(&mut server);
    assert_eq!(report.message, "1 active");
    assert_eq!(outcome(&report.deliveries), vec![(1, true)]);
}

#[test]
fn unregister_after_pruning_is_harmless() {
    let mut server = ChatServer::new();
    let (a, _keep_a) = mailbox();
    server.register(Connect { id: 0, addr: a });
    server.register(Connect { id: 1, addr: dead_mailbox() });
    let _ = tick(&mut server);
    assert_eq!(server.size(), 1);
    server.unregister(Disconnect { id: 1 });
    assert_eq!(server.size(), 1);
    assert!(server.contains(0));
}

#[test]
fn prune_forgets_exactly_the_sessions_that_refused() {
    let mut server = ChatServer::new();
    let mut keep = Vec::new();
    for id in 0..5usize {
        let (handle, rx) = mailbox();
        keep.push(rx);
        server.register(Connect { id, addr: handle });
    }
    let deliveries = vec![
        Delivery { id: 0, accepted: true },
        Delivery { id: 1, accepted: false },
        Delivery { id: 3, accepted: false },
        Delivery { id: 3, accepted: true },
        Delivery { id: 8, accepted: false },
    ];
    server.prune(&deliveries);
    assert_eq!(sorted(server.ids()), vec![0, 2, 4]);
    assert_eq!(server.size(), 3);
    server.prune(&Vec::new());
    assert_eq!(server.size(), 3);
}

#[test]
fn three_clients_hear_three_active_after_a_fourth_came_and_left() {
    let log: Arc<Mutex<Vec<(usize, String)>>> = Arc::new(Mutex::new(Vec::new()));
    let seen = log.clone();
    System::run(move || {
        let mut seq = ConnectionSeq::new();
        let mut server = ChatServer::new();
        for expected_id in 0..3usize {
            let mut session = seq.accept(0).unwrap();
            assert_eq!(session.id, expected_id);
            let client = Recorder { id: session.id, log: seen.clone(), expected: 3 }.start();
            let commands = session.started(SessionHandle(client.recipient()));
            carry_out(&mut server, commands);
        }
        assert_eq!(server.size(), 3);

        let mut fourth = seq.accept(0).unwrap();
        assert_eq!(fourth.id, 3);
        let client = Recorder { id: fourth.id, log: seen.clone(), expected: 3 }.start();
        let commands = fourth.started(SessionHandle(client.recipient()));
        carry_out(&mut server, commands);
        assert_eq!(server.size(), 4);
        let commands = fourth.handle(Frame::Close, 1);
        carry_out(&mut server, commands);
        assert_eq!(server.size(), 3);

        let report = tick(&mut server);
        assert_eq!(report.message, "3 active");
        assert_eq!(outcome(&report.deliveries), vec![(0, true), (1, true), (2, true)]);
        assert_eq!(server.size(), 3);
    })
    .unwrap();
    let mut heard = log.lock().unwrap().clone();
    heard.sort();
    assert_eq!(
        heard,
        vec![
            (0, String::from("3 active")),
            (1, String::from("3 active")),
            (2, String::from("3 active")),
        ]
    );
}

/// Broadcasts from inside the actor system, as the registry's own actor
/// does, to a client whose mailbox holds a single message.
struct Flood {
    log: Arc<Mutex<Vec<(usize, String)>>>,
    reports: Arc<Mutex<Vec<(String, Vec<(usize, bool)>, usize)>>>,
}

impl Actor for Flood {
    type Context = Context<Self>;

    fn started(&mut self, _ctx: &mut Context<Self>) {
        let log = self.log.clone();
        let cramped = Recorder::create(move |ctx| {
            ctx.set_mailbox_capacity(1);
            Recorder { id: 0, log, expected: 4 }
        });
        let roomy = Recorder { id: 1, log: self.log.clone(), expected: 4 }.start();
        let mut server = ChatServer::new();
        server.register(Connect { id: 0, addr: SessionHandle(cramped.recipient()) });
        server.register(Connect { id: 1, addr: SessionHandle(roomy.recipient()) });
        let mut reports = self.reports.lock().unwrap();
        for _ in 0..3 {
            let report = server.broadcast_active_connections().unwrap();
            reports.push((report.message, outcome(&report.deliveries), server.size()));
        }
    }
}

#[test]
fn broadcast_prunes_a_session_whose_mailbox_is_full() {
    let log: Arc<Mutex<Vec<(usize, String)>>> = Arc::new(Mutex::new(Vec::new()));
    let reports = Arc::new(Mutex::new(Vec::new()));
    let flood = Flood { log: log.clone(), reports: reports.clone() };
    System::run(move || {
        flood.start();
    })
    .unwrap();
    let reports = reports.lock().unwrap().clone();
    assert_eq!(
        reports,
        vec![
            (String::from("2 active"), vec![(0, true), (1, true)], 2),
            (String::from("2 active"), vec![(0, false), (1, true)], 1),
            (String::from("1 active"), vec![(1, true)], 1),
        ]
    );
    let mut heard = log.lock().unwrap().clone();
    heard.sort();
    assert_eq!(
        heard,
        vec![
            (0, String::from("2 active")),
            (1, String::from("1 active")),
            (1, String::from("2 active")),
            (1, String::from("2 active")),
        ]
    );
}
