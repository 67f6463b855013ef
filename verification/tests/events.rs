use qstream::events::{EventKind, SessionChannels, SessionEvent};

#[test]
fn event_constructors() {
    let e = SessionEvent::question_created(7);
    assert_eq!(e.kind.as_str(), "question_created");
    assert_eq!((e.question_id, e.donation_id), (Some(7), None));
    assert_eq!(SessionEvent::question_changed(1).kind.as_str(), "question_changed");
    assert_eq!(SessionEvent::question_deleted(1).kind.as_str(), "question_deleted");
    let d = SessionEvent::donation_created(3);
    assert_eq!((d.kind, d.question_id, d.donation_id), (EventKind::DonationCreated, None, Some(3)));
    assert_eq!(SessionEvent::donation_changed(3).kind.as_str(), "donation_changed");
    assert_eq!(SessionEvent::donation_deleted(3).kind.as_str(), "donation_deleted");
    let r = SessionEvent::resync();
    assert_eq!((r.kind.as_str(), r.question_id, r.donation_id), ("resync", None, None));
}

#[test]
fn channels_are_shared_and_cleaned_up() {
    let mut channels = SessionChannels::new();
    let sender = channels.get_or_create_channel(1);
    let mut receiver = sender.subscribe();
    let again = channels.get_or_create_channel(1);
    again.send(SessionEvent::resync()).unwrap();
    assert_eq!(receiver.try_recv().unwrap(), SessionEvent::resync());
    let _idle = channels.get_or_create_channel(2);
    // session 2 has no subscriber: it is forgotten, session 1 stays
    assert_eq!(channels.cleanup(), 1);
    drop(receiver);
    assert_eq!(channels.cleanup(), 1);
    assert_eq!(channels.cleanup(), 0);
}

#[test]
fn channels_reported_idle_are_dropped() {
    let mut channels = SessionChannels::new();
    let one = channels.get_or_create_channel(1);
    let mut one_rx = one.subscribe();
    let two = channels.get_or_create_channel(2);
    let mut two_rx = two.subscribe();
    // session 1 reported with no receivers, session 2 with some, session 9 unknown
    assert_eq!(channels.drop_idle_channels(&vec![(1, 0), (2, 4), (9, 0)]), 1);
    // session 1 now gets a fresh channel, which its old receiver does not hear
    channels.get_or_create_channel(1).send(SessionEvent::resync()).unwrap_err();
    assert!(one_rx.try_recv().is_err());
    // session 2 keeps its channel
    channels.get_or_create_channel(2).send(SessionEvent::resync()).unwrap();
    assert_eq!(two_rx.try_recv().unwrap(), SessionEvent::resync());
    assert_eq!(channels.drop_idle_channels(&vec![]), 0);
}
