use qdb::clients::common::ClientTrait;
use qdb::error::Error;
use qdb::framework::application::{Application, BoolFlag, Context};
use qdb::framework::database::Database;
use qdb::framework::logger::Logger;
use qdb::framework::notification::NotificationManager;
use qdb::framework::workers::common::WorkerTrait;
use qdb::framework::workers::database::Worker;
use qdb::loggers::common::{LogLevel, LoggerTrait};
use qdb::loggers::console::Console;
use qdb::schema::entity::Entity;
use qdb::schema::field::{DatabaseField, RawField};
use qdb::schema::notification::{DatabaseNotification, NotificationConfig, NotificationToken};
use std::collections::VecDeque;

/// A transport that records what it is asked and answers from a script.
#[derive(Default)]
struct Mock {
    up: bool,
    connect_fails: bool,
    stays_down: bool,
    register_fails: bool,
    unregister_fails: bool,
    next_token: usize,
    fixed_token: Option<String>,
    batches: VecDeque<Result<Vec<DatabaseNotification>, String>>,
    calls: Vec<String>,
}

impl Mock {
    fn count(&self, name: &str) -> usize {
        self.calls.iter().filter(|c| c.as_str() == name).count()
    }
}

impl ClientTrait for Mock {
    fn connect(&mut self) -> Result<(), Error> {
        self.calls.push("connect".to_string());
        if self.connect_fails {
            return Err(Error::from_client("no route"));
        }
        if !self.stays_down {
            self.up = true;
        }
        Ok(())
    }

    fn connected(&self) -> bool {
        self.up
    }

    fn disconnect(&mut self) -> bool {
        self.calls.push("disconnect".to_string());
        self.up = false;
        true
    }

    fn get_entities(&mut self, entity_type: &str) -> Result<Vec<Entity>, Error> {
        self.calls.push("get_entities".to_string());
        Ok(vec![Entity::new("1", entity_type, "one"), Entity::new("2", entity_type, "two")])
    }

    fn get_entity(&mut self, entity_id: &str) -> Result<Entity, Error> {
        self.calls.push("get_entity".to_string());
        Ok(Entity::new(entity_id, "T", "n"))
    }

    fn get_notifications(&mut self) -> Result<Vec<DatabaseNotification>, Error> {
        self.calls.push("get_notifications".to_string());
        match self.batches.pop_front() {
            Some(Ok(batch)) => Ok(batch),
            Some(Err(m)) => Err(Error::from_client(&m)),
            None => Ok(vec![]),
        }
    }

    fn read(&mut self, requests: &mut Vec<DatabaseField>) -> Result<(), Error> {
        self.calls.push("read".to_string());
        for r in requests.iter_mut() {
            let id = r.entity_id();
            r.set_str_value(id);
            r.update_writer_id("mock");
        }
        Ok(())
    }

    fn register_notification(
        &mut self,
        _config: &NotificationConfig,
    ) -> Result<NotificationToken, Error> {
        self.calls.push("register".to_string());
        if self.register_fails {
            return Err(Error::from_client("refused"));
        }
        if let Some(t) = &self.fixed_token {
            return Ok(NotificationToken::from_text(t));
        }
        self.next_token += 1;
        Ok(NotificationToken::from_string(format!("token-{}", self.next_token)))
    }

    fn unregister_notification(&mut self, _token: &NotificationToken) -> Result<(), Error> {
        self.calls.push("unregister".to_string());
        if self.unregister_fails {
            return Err(Error::from_client("refused"));
        }
        Ok(())
    }

    fn write(&mut self, _requests: &Vec<DatabaseField>) -> Result<(), Error> {
        self.calls.push("write".to_string());
        Ok(())
    }
}

/// A logger that keeps what it is told.
#[derive(Default)]
struct Sink {
    lines: Vec<(LogLevel, String)>,
}

impl LoggerTrait for Sink {
    fn log(&mut self, level: &LogLevel, message: &str) {
        self.lines.push((*level, message.to_string()));
    }
}

fn config(field: &str) -> NotificationConfig {
    NotificationConfig {
        entity_id: "".to_string(),
        entity_type: "SystemClock".to_string(),
        field: field.to_string(),
        notify_on_change: true,
        context: vec!["A".to_string()],
    }
}

fn note(token: &str, value: i64) -> DatabaseNotification {
    let mut current = RawField::new("e", "f").into_field();
    current.set_i64_value(value);
    DatabaseNotification {
        token: token.to_string(),
        current,
        previous: RawField::new("e", "f").into_field(),
        context: vec![],
    }
}

fn value_of(n: Option<DatabaseNotification>) -> Option<i64> {
    n.map(|n| n.current.value().as_i64().unwrap())
}

fn notification_error(r: Result<(), Error>) -> String {
    match r {
        Err(Error::NotificationError(m)) => m,
        other => panic!("expected a notification error, got {:?}", other),
    }
}

#[test]
fn subscribing_twice_registers_once_and_both_listeners_receive() {
    let mut client = Mock::default();
    let mut registry = NotificationManager::new();
    let first = registry.register(&mut client, &config("CurrentTime")).unwrap();
    let second = registry.register(&mut client, &config("CurrentTime")).unwrap();
    assert_eq!(client.count("register"), 1);
    assert_eq!(first.token().to_text(), "token-1");
    assert_eq!(second.token().to_text(), "token-1");
    assert_ne!(first.slot(), second.slot());
    client.batches.push_back(Ok(vec![note("token-1", 1), note("token-1", 2)]));
    assert!(registry.process_notifications(&mut client).is_ok());
    client.batches.push_back(Ok(vec![note("token-1", 3)]));
    assert!(registry.process_notifications(&mut client).is_ok());
    for rx in [&first, &second] {
        assert_eq!(value_of(registry.try_recv(rx)), Some(1));
        assert_eq!(value_of(registry.try_recv(rx)), Some(2));
        assert_eq!(value_of(registry.try_recv(rx)), Some(3));
        assert_eq!(value_of(registry.try_recv(rx)), None);
    }
}

#[test]
fn different_filters_register_separately() {
    let mut client = Mock::default();
    let mut registry = NotificationManager::new();
    let a = registry.register(&mut client, &config("A")).unwrap();
    let b = registry.register(&mut client, &config("B")).unwrap();
    assert_eq!(client.count("register"), 2);
    assert_eq!(a.token().to_text(), "token-1");
    assert_eq!(b.token().to_text(), "token-2");
    assert!(registry.is_registered(&config("A")));
    assert!(registry.is_registered(&config("B")));
    assert!(!registry.is_registered(&config("C")));
    assert_eq!(registry.token_of(&config("B")).unwrap().to_text(), "token-2");
    assert!(registry.token_of(&config("C")).is_none());
    assert!(registry.dispatch(&vec![note("token-2", 7)]).is_ok());
    assert_eq!(value_of(registry.try_recv(&a)), None);
    assert_eq!(value_of(registry.try_recv(&b)), Some(7));
}

#[test]
fn a_refused_registration_changes_nothing() {
    let mut client = Mock { register_fails: true, ..Mock::default() };
    let mut registry = NotificationManager::new();
    let r = registry.register(&mut client, &config("A"));
    assert!(matches!(r, Err(Error::ClientError(m)) if m == "refused"));
    assert!(!registry.is_registered(&config("A")));
    client.register_fails = false;
    assert!(registry.register(&mut client, &config("A")).is_ok());
    assert_eq!(client.count("register"), 2);
}

#[test]
fn completing_a_registration_twice_is_refused() {
    let mut registry = NotificationManager::new();
    let first = registry
        .complete_registration(&config("A"), Ok(NotificationToken::from_text("t")))
        .unwrap();
    let again =
        registry.complete_registration(&config("A"), Ok(NotificationToken::from_text("u")));
    assert!(matches!(
        again,
        Err(Error::NotificationError(m)) if m == "Inconsistent notification state during registration"
    ));
    assert_eq!(registry.token_of(&config("A")).unwrap().to_text(), "t");
    assert!(!registry.is_known(&NotificationToken::from_text("u")));
    assert!(registry.dispatch(&vec![note("t", 1)]).is_ok());
    assert_eq!(value_of(registry.try_recv(&first)), Some(1));
    let failed = registry.complete_registration(&config("B"), Err(Error::from_client("x")));
    assert!(matches!(failed, Err(Error::ClientError(m)) if m == "x"));
    assert!(!registry.is_registered(&config("B")));
}

#[test]
fn a_token_given_twice_starts_its_bus_over() {
    let mut client = Mock { fixed_token: Some("same".to_string()), ..Mock::default() };
    let mut registry = NotificationManager::new();
    let a = registry.register(&mut client, &config("A")).unwrap();
    assert!(registry.dispatch(&vec![note("same", 1)]).is_ok());
    let b = registry.register(&mut client, &config("B")).unwrap();
    assert_eq!(client.count("register"), 2);
    assert!(registry.dispatch(&vec![note("same", 2)]).is_ok());
    // the listener of the first filter is gone, with what it had not taken out
    assert_ne!(a.slot(), b.slot());
    assert_eq!(value_of(registry.try_recv(&a)), None);
    assert_eq!(value_of(registry.try_recv(&b)), Some(2));
    assert_eq!(value_of(registry.try_recv(&b)), None);
    assert!(registry.is_registered(&config("A")));
    assert!(registry.is_registered(&config("B")));
    // a further listener of the first filter joins the token's bus
    let c = registry.register(&mut client, &config("A")).unwrap();
    assert_eq!(client.count("register"), 2);
    assert!(registry.dispatch(&vec![note("same", 3)]).is_ok());
    assert_eq!(value_of(registry.try_recv(&b)), Some(3));
    assert_eq!(value_of(registry.try_recv(&c)), Some(3));
    assert!(registry.unregister(&mut client, &NotificationToken::from_text("same")).is_ok());
    assert!(!registry.is_registered(&config("A")));
    assert!(!registry.is_registered(&config("B")));
}

#[test]
fn detaching_one_listener_leaves_its_siblings() {
    let mut client = Mock::default();
    let mut registry = NotificationManager::new();
    let first = registry.register(&mut client, &config("A")).unwrap();
    let second = registry.register(&mut client, &config("A")).unwrap();
    let third = registry.register(&mut client, &config("A")).unwrap();
    assert!(registry.dispatch(&vec![note("token-1", 1)]).is_ok());
    assert!(registry.detach(&second).is_ok());
    assert!(registry.dispatch(&vec![note("token-1", 2)]).is_ok());
    assert_eq!(value_of(registry.try_recv(&second)), None);
    // a listener that is gone is given up without effect
    assert!(registry.detach(&second).is_ok());
    for rx in [&first, &third] {
        assert_eq!(value_of(registry.try_recv(rx)), Some(1));
        assert_eq!(value_of(registry.try_recv(rx)), Some(2));
        assert_eq!(value_of(registry.try_recv(rx)), None);
    }
    assert!(registry.is_registered(&config("A")));
    assert_eq!(client.count("unregister"), 0);
}

#[test]
fn the_last_listener_of_a_token_cannot_be_detached() {
    let mut client = Mock::default();
    let mut registry = NotificationManager::new();
    let first = registry.register(&mut client, &config("A")).unwrap();
    let second = registry.register(&mut client, &config("A")).unwrap();
    assert!(registry.detach(&first).is_ok());
    assert_eq!(
        notification_error(registry.detach(&second)),
        "Cannot detach the last listener of a token: unregister the token instead"
    );
    assert!(registry.is_registered(&config("A")));
    assert!(registry.dispatch(&vec![note("token-1", 1)]).is_ok());
    assert_eq!(value_of(registry.try_recv(&second)), Some(1));
    assert_eq!(value_of(registry.try_recv(&first)), None);
    // the subscription ends by unregistering the token
    assert!(registry.unregister(&mut client, second.token()).is_ok());
    assert!(!registry.is_registered(&config("A")));
    assert!(registry.detach(&second).is_ok());
    assert_eq!(client.calls, vec!["register", "unregister"]);
}

#[test]
fn dispatch_after_clear_delivers_nothing() {
    let mut client = Mock::default();
    let mut registry = NotificationManager::new();
    let rx = registry.register(&mut client, &config("A")).unwrap();
    registry.clear();
    assert!(!registry.is_registered(&config("A")));
    assert!(!registry.is_known(&NotificationToken::from_text("token-1")));
    assert_eq!(client.calls, vec!["register".to_string()]);
    assert!(registry.process_notifications(&mut client).is_ok());
    assert_eq!(value_of(registry.try_recv(&rx)), None);
    assert!(registry.dispatch(&vec![]).is_ok());
}

#[test]
fn dispatch_after_clear_reports_what_the_service_still_sends() {
    let mut client = Mock::default();
    let mut registry = NotificationManager::new();
    let rx = registry.register(&mut client, &config("A")).unwrap();
    registry.clear();
    client.batches.push_back(Ok(vec![note("token-1", 1)]));
    assert_eq!(
        notification_error(registry.process_notifications(&mut client)),
        "Cannot process notification: Callback list doesn't exist for token"
    );
    assert_eq!(value_of(registry.try_recv(&rx)), None);
}

#[test]
fn unregister_round_trip() {
    let mut client = Mock::default();
    let mut registry = NotificationManager::new();
    let rx = registry.register(&mut client, &config("A")).unwrap();
    let token = rx.token().duplicate();
    assert!(registry.unregister(&mut client, &token).is_ok());
    assert_eq!(client.count("unregister"), 1);
    assert!(!registry.is_registered(&config("A")));
    assert!(!registry.is_known(&token));
    assert!(registry.token_of(&config("A")).is_none());
    client.batches.push_back(Ok(vec![note("token-1", 1)]));
    assert_eq!(
        notification_error(registry.process_notifications(&mut client)),
        "Cannot process notification: Callback list doesn't exist for token"
    );
    assert_eq!(value_of(registry.try_recv(&rx)), None);
    let again = registry.register(&mut client, &config("A")).unwrap();
    assert_eq!(client.count("register"), 2);
    assert_eq!(again.token().to_text(), "token-2");
}

#[test]
fn a_receiving_end_never_meets_a_later_listener() {
    let mut client = Mock { fixed_token: Some("t".to_string()), ..Mock::default() };
    let mut registry = NotificationManager::new();
    let stale = registry.register(&mut client, &config("A")).unwrap();
    assert!(registry.unregister(&mut client, stale.token()).is_ok());
    // the service hands out the same token again
    let fresh = registry.register(&mut client, &config("A")).unwrap();
    assert_eq!(fresh.token().to_text(), "t");
    assert_ne!(stale.slot(), fresh.slot());
    assert!(registry.dispatch(&vec![note("t", 1)]).is_ok());
    assert_eq!(value_of(registry.try_recv(&stale)), None);
    assert!(registry.detach(&stale).is_ok());
    assert_eq!(value_of(registry.try_recv(&fresh)), Some(1));
    // and after the registry was cleared
    registry.clear();
    let later = registry.register(&mut client, &config("A")).unwrap();
    assert_ne!(later.slot(), fresh.slot());
    assert_ne!(later.slot(), stale.slot());
    assert!(registry.dispatch(&vec![note("t", 2)]).is_ok());
    assert_eq!(value_of(registry.try_recv(&fresh)), None);
    assert_eq!(value_of(registry.try_recv(&later)), Some(2));
}

#[test]
fn unregistering_an_unknown_token_asks_nothing() {
    let mut client = Mock::default();
    let mut registry = NotificationManager::new();
    let r = registry.unregister(&mut client, &NotificationToken::from_text("nope"));
    assert_eq!(notification_error(r), "Token not found during unregistration");
    assert!(client.calls.is_empty());
}

#[test]
fn a_refused_unregistration_changes_nothing() {
    let mut client = Mock { unregister_fails: true, ..Mock::default() };
    let mut registry = NotificationManager::new();
    let rx = registry.register(&mut client, &config("A")).unwrap();
    let r = registry.unregister(&mut client, rx.token());
    assert!(matches!(r, Err(Error::ClientError(m)) if m == "refused"));
    assert!(registry.is_registered(&config("A")));
    assert!(registry.dispatch(&vec![note("token-1", 4)]).is_ok());
    assert_eq!(value_of(registry.try_recv(&rx)), Some(4));
}

#[test]
fn unregister_removes_only_the_filters_of_the_token() {
    let mut client = Mock::default();
    let mut registry = NotificationManager::new();
    let a = registry.register(&mut client, &config("A")).unwrap();
    let b = registry.register(&mut client, &config("B")).unwrap();
    let c = registry.register(&mut client, &config("C")).unwrap();
    assert!(registry.unregister(&mut client, b.token()).is_ok());
    assert!(registry.is_registered(&config("A")));
    assert!(!registry.is_registered(&config("B")));
    assert!(registry.is_registered(&config("C")));
    assert!(registry.dispatch(&vec![note("token-1", 1), note("token-3", 3)]).is_ok());
    assert_eq!(value_of(registry.try_recv(&a)), Some(1));
    assert_eq!(value_of(registry.try_recv(&c)), Some(3));
}

#[test]
fn a_batch_stops_at_the_first_unknown_token() {
    let mut client = Mock::default();
    let mut registry = NotificationManager::new();
    let rx = registry.register(&mut client, &config("A")).unwrap();
    let r = registry.dispatch(&vec![note("token-1", 1), note("ghost", 2), note("token-1", 3)]);
    assert_eq!(
        notification_error(r),
        "Cannot process notification: Callback list doesn't exist for token"
    );
    assert_eq!(value_of(registry.try_recv(&rx)), Some(1));
    assert_eq!(value_of(registry.try_recv(&rx)), None);
}

#[test]
fn a_failed_poll_is_handed_on() {
    let mut client = Mock::default();
    let mut registry = NotificationManager::new();
    let rx = registry.register(&mut client, &config("A")).unwrap();
    client.batches.push_back(Err("timeout".to_string()));
    let r = registry.process_notifications(&mut client);
    assert!(matches!(r, Err(Error::ClientError(m)) if m == "timeout"));
    assert_eq!(value_of(registry.try_recv(&rx)), None);
}

#[test]
fn database_forwards_to_the_transport() {
    let mut db = Database::new(Mock::default());
    assert!(!db.connected());
    assert!(db.connect().is_ok());
    assert!(db.connected());
    assert_eq!(db.get_entity("7").unwrap(), Entity::new("7", "T", "n"));
    assert_eq!(db.get_entities("Light").unwrap().len(), 2);
    let mut requests = vec![RawField::new("e1", "f").into_field()];
    assert!(db.read(&mut requests).is_ok());
    assert_eq!(requests[0].value().as_str().unwrap(), "e1");
    assert!(db.write(&requests).is_ok());
    assert!(db.disconnect());
    assert!(!db.connected());
    assert_eq!(
        db.client.calls,
        vec!["connect", "get_entity", "get_entities", "read", "write", "disconnect"]
    );
}

#[test]
fn database_subscriptions_go_through_its_registry() {
    let mut db = Database::new(Mock::default());
    let rx = db.register_notification(&config("A")).unwrap();
    let rx2 = db.register_notification(&config("A")).unwrap();
    assert_eq!(db.client.count("register"), 1);
    db.client.batches.push_back(Ok(vec![note("token-1", 5)]));
    assert!(db.process_notifications().is_ok());
    assert_eq!(value_of(db.notification_manager.try_recv(&rx)), Some(5));
    assert_eq!(value_of(db.notification_manager.try_recv(&rx2)), Some(5));
    assert!(db.unregister_notification(rx.token()).is_ok());
    assert_eq!(db.client.count("unregister"), 1);
    let _ = db.register_notification(&config("B")).unwrap();
    db.clear_notifications();
    assert!(!db.notification_manager.is_registered(&config("B")));
    assert_eq!(db.client.count("unregister"), 1);
}

#[test]
fn find_keeps_the_entities_whose_fields_satisfy_the_predicate() {
    let mut db = Database::new(Mock::default());
    let names = vec!["A".to_string(), "B".to_string()];
    let found = db
        .find("Light", &names, |read: &Vec<DatabaseField>| {
            read.len() == 2
                && read[0].name() == "A"
                && read[1].name() == "B"
                && read[0].value().as_str().unwrap() == "2"
        })
        .unwrap();
    assert_eq!(found, vec![Entity::new("2", "Light", "two")]);
    assert_eq!(db.client.calls, vec!["get_entities", "read", "read"]);
    let all = db.find("Light", &names, |_: &Vec<DatabaseField>| true).unwrap();
    assert_eq!(all, vec![Entity::new("1", "Light", "one"), Entity::new("2", "Light", "two")]);
    let none = db.find("Light", &vec![], |read: &Vec<DatabaseField>| !read.is_empty()).unwrap();
    assert!(none.is_empty());
    let requests = Database::<Mock>::requests_for(&Entity::new("9", "T", "n"), &names);
    assert_eq!(requests.len(), 2);
    assert_eq!(requests[1].entity_id(), "9");
    assert_eq!(requests[1].name(), "B");
    assert!(requests[1].value().is_unspecified());
}

fn context(client: Mock) -> Context<Mock, Sink> {
    Context::new(Database::new(client), Logger::new(Sink::default()))
}

fn wired() -> Worker {
    let mut w = Worker::new();
    w.receivers.network_connection_status = Some(vec![]);
    w
}

fn signal(w: &mut Worker, up: bool) {
    w.receivers.network_connection_status.as_mut().unwrap().push(up);
    assert!(WorkerTrait::<Mock, Sink>::process_events(w).is_ok());
}

fn drain(w: &mut Worker, rx: &qdb::framework::events::emitter::Receiver) -> Vec<bool> {
    let mut seen = vec![];
    while let Some(b) = w.emitters.connection_status.try_recv(rx) {
        seen.push(b);
    }
    seen
}

#[test]
fn supervisor_reconnects_and_clears_once() {
    let mut ctx = context(Mock::default());
    let mut w = wired();
    signal(&mut w, true);
    assert!(w.is_nw_connected());
    // first tick: never connected before, so no `false`; the transport connects
    assert!(w.do_work(&mut ctx).is_ok());
    assert!(w.is_db_connected());
    let rx = w.emitters.connection_status.new_receiver();
    let sub = ctx.database.register_notification(&config("A")).unwrap();
    // the backend drops the connection
    ctx.database.client.up = false;
    ctx.database.client.calls.clear();
    assert!(w.do_work(&mut ctx).is_ok());
    assert_eq!(drain(&mut w, &rx), vec![false, true]);
    assert_eq!(ctx.database.client.calls, vec!["disconnect", "connect"]);
    assert!(!ctx.database.notification_manager.is_registered(&config("A")));
    assert!(w.is_db_connected());
    // the next tick polls: the first dispatch after the clearing
    assert!(w.do_work(&mut ctx).is_ok());
    assert_eq!(ctx.database.client.calls, vec!["disconnect", "connect", "get_notifications"]);
    assert_eq!(drain(&mut w, &rx), Vec::<bool>::new());
    assert_eq!(value_of(ctx.database.notification_manager.try_recv(&sub)), None);
}

#[test]
fn supervisor_first_connection_emits_true_only() {
    let mut ctx = context(Mock::default());
    let mut w = wired();
    let rx = w.emitters.connection_status.new_receiver();
    signal(&mut w, true);
    assert!(w.do_work(&mut ctx).is_ok());
    assert_eq!(drain(&mut w, &rx), vec![true]);
    let levels: Vec<LogLevel> = ctx.logger.inner.lines.iter().map(|l| l.0).collect();
    assert_eq!(levels, vec![LogLevel::Debug, LogLevel::Info]);
    assert!(ctx.logger.inner.lines[0].1.ends_with("Attempting to connect to the database..."));
    assert!(ctx.logger.inner.lines[1].1.ends_with("Connected to the database"));
}

#[test]
fn supervisor_leaves_the_registry_alone_when_the_network_drops() {
    let mut ctx = context(Mock::default());
    let mut w = wired();
    signal(&mut w, true);
    assert!(w.do_work(&mut ctx).is_ok());
    let rx = w.emitters.connection_status.new_receiver();
    let _sub = ctx.database.register_notification(&config("A")).unwrap();
    ctx.database.client.calls.clear();
    signal(&mut w, false);
    assert!(w.do_work(&mut ctx).is_ok());
    assert_eq!(drain(&mut w, &rx), vec![false]);
    assert!(!w.is_db_connected());
    assert!(ctx.database.notification_manager.is_registered(&config("A")));
    assert!(ctx.database.client.calls.is_empty());
    // nothing more happens while the network stays down
    assert!(w.do_work(&mut ctx).is_ok());
    assert_eq!(drain(&mut w, &rx), Vec::<bool>::new());
    assert!(ctx.database.client.calls.is_empty());
    let last = ctx.logger.inner.lines.last().unwrap();
    assert_eq!(last.0, LogLevel::Warning);
    assert!(last.1.ends_with("Network connection loss has disrupted database connection"));
}

#[test]
fn supervisor_retries_a_failed_connect_on_the_next_tick() {
    let mut ctx = context(Mock { connect_fails: true, ..Mock::default() });
    let mut w = wired();
    let rx = w.emitters.connection_status.new_receiver();
    signal(&mut w, true);
    let r = w.do_work(&mut ctx);
    assert!(matches!(r, Err(Error::ClientError(m)) if m == "no route"));
    assert!(!w.is_db_connected());
    assert_eq!(drain(&mut w, &rx), Vec::<bool>::new());
    ctx.database.client.connect_fails = false;
    assert!(w.do_work(&mut ctx).is_ok());
    assert!(w.is_db_connected());
    assert_eq!(drain(&mut w, &rx), vec![true]);
    assert_eq!(ctx.database.client.calls, vec!["disconnect", "connect", "disconnect", "connect"]);
}

#[test]
fn supervisor_stays_disconnected_while_the_transport_does() {
    let mut ctx = context(Mock { stays_down: true, ..Mock::default() });
    let mut w = wired();
    let rx = w.emitters.connection_status.new_receiver();
    signal(&mut w, true);
    assert!(w.do_work(&mut ctx).is_ok());
    assert!(!w.is_db_connected());
    assert_eq!(drain(&mut w, &rx), Vec::<bool>::new());
}

#[test]
fn supervisor_hands_on_a_dispatch_error() {
    let mut ctx = context(Mock { up: true, ..Mock::default() });
    let mut w = wired();
    signal(&mut w, true);
    ctx.database.client.batches.push_back(Ok(vec![note("ghost", 1)]));
    assert_eq!(
        notification_error(w.do_work(&mut ctx)),
        "Cannot process notification: Callback list doesn't exist for token"
    );
    assert_eq!(ctx.database.client.calls, vec!["get_notifications"]);
}

#[test]
fn supervisor_takes_the_last_network_signal() {
    let mut w = wired();
    assert!(!w.is_nw_connected());
    w.receivers.network_connection_status = Some(vec![true, false, true]);
    assert!(WorkerTrait::<Mock, Sink>::process_events(&mut w).is_ok());
    assert!(w.is_nw_connected());
    assert_eq!(w.receivers.network_connection_status, Some(vec![]));
    assert!(WorkerTrait::<Mock, Sink>::process_events(&mut w).is_ok());
    assert!(w.is_nw_connected());
    let mut unwired = Worker::new();
    assert!(WorkerTrait::<Mock, Sink>::process_events(&mut unwired).is_ok());
    assert!(!unwired.is_nw_connected());
    assert!(unwired.receivers.network_connection_status.is_none());
    assert!(!unwired.connectivity.is_database_up());
    assert!(!unwired.connectivity.is_network_up());
}

#[test]
fn supervisor_logs_when_set_up_and_torn_down() {
    let mut ctx = context(Mock::default());
    let mut w = Worker::new();
    assert!(w.intialize(&mut ctx).is_ok());
    assert!(w.deinitialize(&mut ctx).is_ok());
    assert_eq!(ctx.logger.inner.lines.len(), 2);
    assert!(ctx.logger.inner.lines[0].1.ends_with("Initializing database worker"));
    assert!(ctx.logger.inner.lines[1].1.ends_with("Deinitializing database worker"));
}

/// A worker that counts its calls and fails where told to.
#[derive(Default)]
struct Counting {
    name: &'static str,
    fail_ticks: bool,
    fail_events: bool,
    fail_setup: bool,
    setups: usize,
    ticks: usize,
    events: usize,
    teardowns: usize,
}

impl WorkerTrait<Mock, Sink> for Counting {
    fn intialize(&mut self, ctx: &mut Context<Mock, Sink>) -> Result<(), Error> {
        self.setups += 1;
        ctx.logger.info(self.name);
        if self.fail_setup {
            Err(Error::from_client("setup"))
        } else {
            Ok(())
        }
    }

    fn do_work(&mut self, ctx: &mut Context<Mock, Sink>) -> Result<(), Error> {
        self.ticks += 1;
        ctx.logger.trace(self.name);
        if self.fail_ticks {
            Err(Error::from_client("tick"))
        } else {
            Ok(())
        }
    }

    fn deinitialize(&mut self, _ctx: &mut Context<Mock, Sink>) -> Result<(), Error> {
        self.teardowns += 1;
        Err(Error::from_database_field("teardown"))
    }

    fn process_events(&mut self) -> Result<(), Error> {
        self.events += 1;
        if self.fail_events {
            Err(Error::from_notification("events"))
        } else {
            Ok(())
        }
    }
}

#[test]
fn a_failing_worker_keeps_no_worker_from_ticking() {
    let mut ctx = context(Mock::default());
    let mut app: Application<Counting> = Application::new(500);
    app.add_worker(Counting { name: "first", fail_ticks: true, ..Counting::default() });
    app.add_worker(Counting { name: "second", ..Counting::default() });
    assert!(app.do_work(&mut ctx).is_ok());
    assert_eq!(app.worker(0).ticks, 1);
    assert_eq!(app.worker(1).ticks, 1);
    assert!(app.do_work(&mut ctx).is_ok());
    assert_eq!(app.worker(0).ticks, 2);
    assert_eq!(app.worker(1).ticks, 2);
    let lines: Vec<&str> = ctx.logger.inner.lines.iter().map(|l| l.1.as_str()).collect();
    let failure = "[qdb::framework::application::Application::do_work] Error while executing worker: Client error: tick";
    assert_eq!(lines, vec!["first", failure, "second", "first", failure, "second"]);
    assert_eq!(ctx.logger.inner.lines[1].0, LogLevel::Error);
}

#[test]
fn every_worker_processes_its_events_after_each_tick() {
    let mut ctx = context(Mock::default());
    let mut app: Application<Counting> = Application::new(500);
    app.add_worker(Counting { name: "a", fail_events: true, ..Counting::default() });
    app.add_worker(Counting { name: "b", ..Counting::default() });
    app.add_worker(Counting { name: "c", ..Counting::default() });
    assert_eq!(app.worker_count(), 3);
    assert!(app.do_work(&mut ctx).is_ok());
    for i in 0..3 {
        assert_eq!(app.worker(i).ticks, 1);
        assert_eq!(app.worker(i).events, 3);
    }
    let errors: Vec<&str> = ctx
        .logger
        .inner
        .lines
        .iter()
        .filter(|l| l.0 == LogLevel::Error)
        .map(|l| l.1.as_str())
        .collect();
    let failure = "[qdb::framework::application::Application::process_events] Error while processing events: Notification error: events";
    assert_eq!(errors, vec![failure, failure, failure]);
    assert!(app.process_events(&mut ctx).is_ok());
    assert_eq!(app.worker(2).events, 4);
}

#[test]
fn set_up_and_tear_down_reach_every_worker() {
    let mut ctx = context(Mock::default());
    let mut app: Application<Counting> = Application::new(500);
    app.add_worker(Counting { name: "a", fail_setup: true, ..Counting::default() });
    app.add_worker(Counting { name: "b", ..Counting::default() });
    assert!(app.intialize(&mut ctx).is_ok());
    assert!(app.deinitialize(&mut ctx).is_ok());
    for i in 0..2 {
        assert_eq!(app.worker(i).setups, 1);
        assert_eq!(app.worker(i).teardowns, 1);
        assert_eq!(app.worker(i).ticks, 0);
    }
    let lines: Vec<&str> = ctx.logger.inner.lines.iter().map(|l| l.1.as_str()).collect();
    assert_eq!(
        lines,
        vec![
            "[qdb::framework::application::Application::initialize] Initializing application",
            "a",
            "[qdb::framework::application::Application::initialize] Error while initializing worker: Client error: setup",
            "b",
            "[qdb::framework::application::Application::deinitialize] Deinitializing application",
            "[qdb::framework::application::Application::deinitialize] Error while deinitializing worker: Database error: teardown",
            "[qdb::framework::application::Application::deinitialize] Error while deinitializing worker: Database error: teardown",
            "[qdb::framework::application::Application::deinitialize] Shutting down now",
        ]
    );
}

#[test]
fn an_empty_scheduler_does_nothing() {
    let mut ctx = context(Mock::default());
    let mut app: Application<Counting> = Application::new(10);
    assert_eq!(app.worker_count(), 0);
    assert!(app.do_work(&mut ctx).is_ok());
    assert!(app.process_events(&mut ctx).is_ok());
    assert!(ctx.logger.inner.lines.is_empty());
}

#[test]
fn idle_time_is_the_rest_of_the_interval() {
    let mut ctx = context(Mock::default());
    let app: Application<Counting> = Application::new(500);
    assert_eq!(app.idle_time(&ctx, 120), Some(380));
    assert_eq!(app.idle_time(&ctx, 0), Some(500));
    assert_eq!(app.idle_time(&ctx, 499), Some(1));
    assert_eq!(app.idle_time(&ctx, 500), None);
    assert_eq!(app.idle_time(&ctx, 5000), None);
    assert!(app.keeps_running(&ctx));
    app.request_quit(&mut ctx);
    assert!(!app.keeps_running(&ctx));
    assert_eq!(app.idle_time(&ctx, 120), None);
    assert!(ctx.quit().get());
}

#[test]
fn the_scheduler_drives_the_supervisor() {
    let mut ctx = context(Mock::default());
    let mut app: Application<Worker> = Application::new(100);
    let mut w = Worker::new();
    w.receivers.network_connection_status = Some(vec![true]);
    app.add_worker(w);
    assert!(app.intialize(&mut ctx).is_ok());
    // first iteration: the network is still held down during the tick, the
    // signal is taken in afterwards
    assert!(app.do_work(&mut ctx).is_ok());
    assert!(app.worker(0).is_nw_connected());
    assert!(!app.worker(0).is_db_connected());
    assert!(app.do_work(&mut ctx).is_ok());
    assert!(app.worker(0).is_db_connected());
    assert!(app.do_work(&mut ctx).is_ok());
    assert_eq!(ctx.database().client.calls, vec!["disconnect", "connect", "get_notifications"]);
    assert!(app.deinitialize(&mut ctx).is_ok());
}

#[test]
fn workers_can_be_changed_in_place() {
    let mut app: Application<Counting> = Application::new(1);
    app.add_worker(Counting { name: "a", ..Counting::default() });
    app.worker_mut(0).fail_ticks = true;
    assert!(app.worker(0).fail_ticks);
}

#[test]
fn bool_flag_starts_lowered() {
    let mut f = BoolFlag::new();
    assert!(!f.get());
    f.set(true);
    assert!(f.get());
    f.set(false);
    assert!(!f.get());
}

#[test]
fn context_hands_out_its_parts() {
    let ctx = context(Mock { up: true, ..Mock::default() });
    assert!(ctx.database().connected());
    assert!(ctx.logger().inner.lines.is_empty());
    assert!(!ctx.quit().get());
}

#[test]
fn logger_handle_forwards_each_level() {
    let mut l = Logger::new(Sink::default());
    l.log(&LogLevel::Warning, "a");
    l.trace("b");
    l.debug("c");
    l.info("d");
    l.warning("e");
    l.error("f");
    let got: Vec<(LogLevel, &str)> = l.inner.lines.iter().map(|x| (x.0, x.1.as_str())).collect();
    assert_eq!(
        got,
        vec![
            (LogLevel::Warning, "a"),
            (LogLevel::Trace, "b"),
            (LogLevel::Debug, "c"),
            (LogLevel::Info, "d"),
            (LogLevel::Warning, "e"),
            (LogLevel::Error, "f"),
        ]
    );
}

#[test]
fn console_keeps_lines_at_or_above_its_level() {
    let mut c = Console::new(LogLevel::Info);
    assert_eq!(c.level(), LogLevel::Info);
    c.trace("t");
    c.debug("d");
    c.info("i");
    c.warning("w");
    c.error("e");
    let lines = c.take_lines();
    assert_eq!(lines.len(), 3);
    assert!(lines[0].ends_with(" | INFO | i"));
    assert!(lines[1].ends_with(" | WARNING | w"));
    assert!(lines[2].ends_with(" | ERROR | e"));
    // the stamp is RFC 3339 in UTC with milliseconds: 2024-01-02T03:04:05.678Z
    let stamp = lines[0].split(" | ").next().unwrap();
    assert_eq!(stamp.len(), 24);
    assert!(stamp.ends_with('Z'));
    assert_eq!(&stamp[10..11], "T");
    assert!(c.take_lines().is_empty());
    assert!(c.enabled(&LogLevel::Error));
    assert!(c.enabled(&LogLevel::Info));
    assert!(!c.enabled(&LogLevel::Debug));
}

#[test]
fn console_line_layout() {
    assert_eq!(
        Console::render("2024-01-02T03:04:05.678Z", &LogLevel::Debug, "hello | there"),
        "2024-01-02T03:04:05.678Z | DEBUG | hello | there"
    );
    assert_eq!(Console::render("", &LogLevel::Trace, ""), " | TRACE | ");
}

#[test]
fn log_levels_are_ordered() {
    let all = [LogLevel::Trace, LogLevel::Debug, LogLevel::Info, LogLevel::Warning, LogLevel::Error];
    let names = ["TRACE", "DEBUG", "INFO", "WARNING", "ERROR"];
    for (i, a) in all.iter().enumerate() {
        assert_eq!(a.severity() as usize, i);
        assert_eq!(a.name(), names[i]);
        for (j, b) in all.iter().enumerate() {
            assert_eq!(a.at_least(b), i >= j);
            assert_eq!(a >= b, i >= j);
        }
    }
}
