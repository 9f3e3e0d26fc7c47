use radon::client::Client;
use radon::registry::Registry;
use radon::session::{chat_line, Action, Event, Phase, Session, NAME_TAKEN};
use tokio::sync::broadcast;

struct Conn {
    session: Session,
    rx: Option<broadcast::Receiver<String>>,
    replies: Vec<String>,
}

fn connect() -> Conn {
    Conn { session: Session::new(Client::new("127.0.0.1:1".to_string())), rx: None, replies: Vec::new() }
}

fn feed(tx: &broadcast::Sender<String>, reg: &mut Registry, conn: &mut Conn, event: Event) -> Vec<String> {
    let mut published = Vec::new();
    for action in conn.session.step(reg, event) {
        match action {
            Action::Reply(t) => conn.replies.push(t),
            Action::Subscribe => conn.rx = Some(tx.subscribe()),
            Action::Publish(line) => {
                let _ = tx.send(line.clone());
                published.push(line);
            }
        }
    }
    published
}

fn text(s: &str) -> Event {
    Event::Text(s.to_string())
}

fn drain(rx: &mut broadcast::Receiver<String>) -> Vec<String> {
    let mut out = Vec::new();
    while let Ok(line) = rx.try_recv() {
        out.push(line);
    }
    out
}

#[test]
fn chat_line_joins_name_and_text() {
    assert_eq!(chat_line(&"alice".to_string(), &"hi".to_string()), "alice: hi");
    assert_eq!(chat_line(&"".to_string(), &"".to_string()), ": ");
}

#[test]
fn second_client_rejected_then_joins_with_other_name() {
    let (tx, mut observer) = broadcast::channel::<String>(10);
    let mut reg = Registry::new();
    let mut a = connect();
    let mut b = connect();
    feed(&tx, &mut reg, &mut a, text("alice"));
    assert_eq!(a.session.phase(), Phase::Active);
    feed(&tx, &mut reg, &mut b, text("alice"));
    assert_eq!(b.session.phase(), Phase::Negotiating);
    assert_eq!(b.replies, vec!["Username already taken".to_string()]);
    assert_eq!(NAME_TAKEN, "Username already taken");
    feed(&tx, &mut reg, &mut b, text("bob"));
    assert_eq!(b.session.phase(), Phase::Active);
    assert_eq!(b.session.client().username().map(|s| s.as_str()), Some("bob"));
    assert_eq!(drain(&mut observer), vec!["alice joined.".to_string(), "bob joined.".to_string()]);
    assert!(reg.contains("alice"));
    assert!(reg.contains("bob"));
}

#[test]
fn chat_message_reaches_every_subscriber_once() {
    let (tx, _keep) = broadcast::channel::<String>(10);
    let mut reg = Registry::new();
    let mut a = connect();
    let mut b = connect();
    feed(&tx, &mut reg, &mut a, text("alice"));
    feed(&tx, &mut reg, &mut b, text("bob"));
    let mut rx_a = a.rx.take().unwrap();
    let mut rx_b = b.rx.take().unwrap();
    drain(&mut rx_a);
    drain(&mut rx_b);
    let sent = feed(&tx, &mut reg, &mut a, text("hi"));
    assert_eq!(sent, vec!["alice: hi".to_string()]);
    assert_eq!(drain(&mut rx_b), vec!["alice: hi".to_string()]);
    assert_eq!(drain(&mut rx_a), vec!["alice: hi".to_string()]);
}

#[test]
fn dropped_connection_announces_leave_and_frees_name() {
    let (tx, mut observer) = broadcast::channel::<String>(10);
    let mut reg = Registry::new();
    let mut a = connect();
    feed(&tx, &mut reg, &mut a, text("alice"));
    drain(&mut observer);
    let sent = feed(&tx, &mut reg, &mut a, Event::StreamEnded);
    assert_eq!(sent, vec!["alice left.".to_string()]);
    assert_eq!(a.session.phase(), Phase::Closed);
    assert_eq!(drain(&mut observer), vec!["alice left.".to_string()]);
    let mut c = connect();
    feed(&tx, &mut reg, &mut c, text("alice"));
    assert_eq!(c.session.phase(), Phase::Active);
    assert!(c.replies.is_empty());
}

#[test]
fn teardown_happens_once_whichever_relay_ends_first() {
    let (tx, mut observer) = broadcast::channel::<String>(10);
    let mut reg = Registry::new();
    let mut a = connect();
    feed(&tx, &mut reg, &mut a, text("alice"));
    drain(&mut observer);
    let first = feed(&tx, &mut reg, &mut a, Event::RelayEnded);
    let second = feed(&tx, &mut reg, &mut a, Event::StreamEnded);
    let third = feed(&tx, &mut reg, &mut a, text("late"));
    assert_eq!(first, vec!["alice left.".to_string()]);
    assert!(second.is_empty());
    assert!(third.is_empty());
    assert_eq!(drain(&mut observer), vec!["alice left.".to_string()]);
    assert!(!reg.contains("alice"));
}

#[test]
fn control_frames_do_not_end_negotiation() {
    let (tx, _keep) = broadcast::channel::<String>(10);
    let mut reg = Registry::new();
    let mut a = connect();
    let sent = feed(&tx, &mut reg, &mut a, Event::Control);
    assert!(sent.is_empty());
    assert_eq!(a.session.phase(), Phase::Negotiating);
    feed(&tx, &mut reg, &mut a, text("alice"));
    assert_eq!(a.session.phase(), Phase::Active);
    let sent = feed(&tx, &mut reg, &mut a, Event::Control);
    assert!(sent.is_empty());
    assert_eq!(a.session.phase(), Phase::Active);
}

#[test]
fn stream_end_while_negotiating_closes_without_release() {
    let (tx, _keep) = broadcast::channel::<String>(10);
    let mut reg = Registry::new();
    let mut a = connect();
    let mut b = connect();
    feed(&tx, &mut reg, &mut a, text("alice"));
    feed(&tx, &mut reg, &mut b, text("alice"));
    let sent = feed(&tx, &mut reg, &mut b, Event::StreamEnded);
    assert!(sent.is_empty());
    assert_eq!(b.session.phase(), Phase::Closed);
    assert!(reg.contains("alice"));
    let sent = feed(&tx, &mut reg, &mut b, text("carol"));
    assert!(sent.is_empty());
    assert!(!reg.contains("carol"));
}

#[test]
fn late_subscriber_sees_no_backlog() {
    let (tx, _keep) = broadcast::channel::<String>(10);
    let mut reg = Registry::new();
    let mut a = connect();
    feed(&tx, &mut reg, &mut a, text("alice"));
    feed(&tx, &mut reg, &mut a, text("one"));
    feed(&tx, &mut reg, &mut a, text("two"));
    let mut b = connect();
    feed(&tx, &mut reg, &mut b, text("bob"));
    feed(&tx, &mut reg, &mut a, text("three"));
    let mut rx_b = b.rx.take().unwrap();
    assert_eq!(drain(&mut rx_b), vec!["bob joined.".to_string(), "alice: three".to_string()]);
}

#[test]
fn join_subscribes_before_announcing() {
    let mut reg = Registry::new();
    let mut a = connect();
    let actions = a.session.step(&mut reg, text("alice"));
    assert_eq!(actions.len(), 2);
    assert!(matches!(actions[0], Action::Subscribe));
    assert!(matches!(&actions[1], Action::Publish(l) if l == "alice joined."));
}

#[test]
fn rejection_then_control_frames_then_free_name_joins() {
    let (tx, mut observer) = broadcast::channel::<String>(10);
    let mut reg = Registry::new();
    let mut a = connect();
    let mut b = connect();
    feed(&tx, &mut reg, &mut a, text("alice"));
    drain(&mut observer);
    feed(&tx, &mut reg, &mut b, text("alice"));
    feed(&tx, &mut reg, &mut b, Event::Control);
    feed(&tx, &mut reg, &mut b, Event::Control);
    assert_eq!(b.session.phase(), Phase::Negotiating);
    feed(&tx, &mut reg, &mut b, text("bob"));
    assert_eq!(b.session.phase(), Phase::Active);
    assert_eq!(b.replies, vec!["Username already taken".to_string()]);
    assert_eq!(drain(&mut observer), vec!["bob joined.".to_string()]);
    assert!(reg.contains("alice"));
    assert_eq!(a.session.phase(), Phase::Active);
}
