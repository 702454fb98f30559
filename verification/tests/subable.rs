use yengine::engine::Topic;
use yengine::subable::{Peek, Step, Subscriber};

#[test]
fn a_topic_is_subscribed_until_its_subscription_ends() {
    let mut hub = Subscriber::new();
    let topic = Topic::InstallAck("a".to_string());
    assert!(!hub.is_subscribed(&topic));

    let sub = hub.subscribe(topic.clone());
    assert_eq!(sub.topic(), &topic);
    assert!(hub.is_subscribed(&topic));
    assert!(!hub.is_subscribed(&Topic::InstallAck("b".to_string())));

    hub.unsubscribe(sub);
    assert!(!hub.is_subscribed(&topic));
}

#[test]
fn unique_routing() {
    let mut hub = Subscriber::new();
    let a = hub.subscribe(Topic::InstallAck("a".to_string()));
    let b = hub.subscribe(Topic::InstallAck("b".to_string()));
    let frame = "%%<install:50:a:false";

    assert!(matches!(a.poll_next(&hub, Peek::Frame(frame)), Step::Match));
    match b.poll_next(&hub, Peek::Frame(frame)) {
        Step::Wake(topic) => assert_eq!(&topic, a.topic()),
        step => panic!("the frame is not for b: {step:?}"),
    }
}

#[test]
fn a_frame_that_nobody_awaits_is_no_match() {
    let mut hub = Subscriber::new();
    let a = hub.subscribe(Topic::InstallAck("a".to_string()));
    assert!(matches!(
        a.poll_next(&hub, Peek::Frame("%%<install:50:c:false")),
        Step::NoMatch
    ));
    assert!(matches!(a.poll_next(&hub, Peek::Frame("garbage")), Step::NoMatch));
}

#[test]
fn fallback_delivery() {
    let frame = "%%<message:234479208:false:engine.timer::time=1095112795";

    let mut hub = Subscriber::new();
    let other = hub.subscribe(Topic::QuitAck);
    assert_eq!(hub.route(frame), Topic::Watch);
    assert!(matches!(other.poll_next(&hub, Peek::Frame(frame)), Step::NoMatch));

    let watch = hub.subscribe(Topic::Watch);
    assert!(matches!(watch.poll_next(&hub, Peek::Frame(frame)), Step::Match));
    match other.poll_next(&hub, Peek::Frame(frame)) {
        Step::Wake(topic) => assert_eq!(topic, Topic::Watch),
        step => panic!("the frame is for the watchers: {step:?}"),
    }

    let caller = hub.subscribe(Topic::MessageAck("234479208".to_string()));
    assert_eq!(hub.route(frame), Topic::MessageAck("234479208".to_string()));
    assert!(matches!(caller.poll_next(&hub, Peek::Frame(frame)), Step::Match));
    assert!(matches!(watch.poll_next(&hub, Peek::Frame(frame)), Step::Wake(_)));
}

#[test]
fn the_end_and_the_failure_of_the_stream() {
    let mut hub = Subscriber::new();
    let a = hub.subscribe(Topic::Message);
    assert!(matches!(a.poll_next(&hub, Peek::End), Step::End));
    assert!(matches!(a.poll_next(&hub, Peek::Failed), Step::Fail));
}

#[test]
fn every_subscription_is_over_after_unsubscribe_all() {
    let mut hub = Subscriber::new();
    let a = hub.subscribe(Topic::Message);
    let b = hub.subscribe(Topic::Watch);
    hub.unsubscribe_all();
    assert!(matches!(
        a.poll_next(&hub, Peek::Frame("%%>message:yengine.1.1:1095112795:engine.timer:")),
        Step::End
    ));
    assert!(matches!(b.poll_next(&hub, Peek::Failed), Step::End));
    assert!(!hub.is_subscribed(&Topic::Message));
}
