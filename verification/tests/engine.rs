use std::ops::Deref;

use yengine::engine::{
    ack, connect, debug, default_response, expect, getlocal, getlocal_ack, id, id_of, install,
    install_ack, message, message_ack, messages, next, output, quit, quit_ack, setlocal,
    setlocal_ack, uninstall, uninstall_ack, unwatch, unwatch_ack, watch, watch_ack, watches, Error,
    Next, Request, Response, Topic,
};
use yengine::engine::processed;
use yengine::format::{
    from_str, ConnectRole, InstallAck, Message, MessageAck, Params, QuitAck, SetLocalAck,
    UninstallAck, UnwatchAck, WatchAck,
};
use yengine::subable::{Peek, Step, Subed, Subscriber};

#[test]
fn install_round_trip() {
    let call = install(Some(50), "engine.timer".to_string(), None);
    assert_eq!(call.line, "%%>install:50:engine.timer");
    assert_eq!(call.topic, Topic::InstallAck("engine.timer".to_string()));

    let mut hub = Subscriber::new();
    let sub = hub.subscribe(call.topic);
    let frame = "%%<install:50:engine.timer:true";
    assert!(matches!(sub.poll_next(&hub, Peek::Frame(frame)), Step::Match));

    match next::<InstallAck>(Some(Subed::Yes(frame.to_string()))) {
        Next::Item(ack) => assert_eq!(install_ack(Some(ack)), Ok(true)),
        other => panic!("the answer was awaited: {other:?}"),
    }
}

#[test]
fn interleaving() {
    let a = install(None, "a".to_string(), None);
    let b = install(None, "b".to_string(), None);
    let mut hub = Subscriber::new();
    let sub_a = hub.subscribe(a.topic);
    let sub_b = hub.subscribe(b.topic);

    let first = "%%<install:100:b:true";
    match sub_a.poll_next(&hub, Peek::Frame(first)) {
        Step::Wake(topic) => assert_eq!(&topic, sub_b.topic()),
        step => panic!("the first answer is for b: {step:?}"),
    }
    assert!(matches!(sub_b.poll_next(&hub, Peek::Frame(first)), Step::Match));
    let second = "%%<install:50:a:false";
    assert!(matches!(sub_b.poll_next(&hub, Peek::Frame(second)), Step::Wake(_)));
    assert!(matches!(sub_a.poll_next(&hub, Peek::Frame(second)), Step::Match));

    match next::<InstallAck>(Some(Subed::Yes(second.to_string()))) {
        Next::Item(ack) => assert_eq!(install_ack(Some(ack)), Ok(false)),
        other => panic!("{other:?}"),
    }
    match next::<InstallAck>(Some(Subed::Yes(first.to_string()))) {
        Next::Item(ack) => assert_eq!(install_ack(Some(ack)), Ok(true)),
        other => panic!("{other:?}"),
    }
}

#[test]
fn unsolicited_message() {
    let mut hub = Subscriber::new();
    let sub = hub.subscribe(Topic::QuitAck);

    let frame = "%%>message:abc:1095112795:call.route::caller=1";
    assert!(matches!(sub.poll_next(&hub, Peek::Frame(frame)), Step::NoMatch));
    match default_response(frame) {
        Response::Ack(line) => assert_eq!(line, "%%<message:abc:false:::caller=1"),
        other => panic!("a message has to be answered: {other:?}"),
    }
    match next::<QuitAck>(Some(Subed::No(frame.to_string()))) {
        Next::Respond(Response::Ack(line)) => assert_eq!(line, "%%<message:abc:false:::caller=1"),
        other => panic!("a message has to be answered: {other:?}"),
    }
}

#[test]
fn unsolicited_answer_is_dropped() {
    let mut hub = Subscriber::new();
    let sub = hub.subscribe(Topic::QuitAck);

    let frame = "%%<message:abc:false:call.route::caller=1";
    assert!(matches!(sub.poll_next(&hub, Peek::Frame(frame)), Step::NoMatch));
    assert!(matches!(default_response(frame), Response::Drop));
}

#[test]
fn watch_delivery() {
    let mut hub = Subscriber::new();
    let sub = hub.subscribe(watches());
    let frame = "%%<message:234479208:false:engine.timer::time=1095112795";
    assert!(matches!(sub.poll_next(&hub, Peek::Frame(frame)), Step::Match));

    match next::<MessageAck>(Some(Subed::Yes(frame.to_string()))) {
        Next::Item(watched) => {
            assert_eq!(watched.id, "234479208");
            assert!(!watched.processed);
            assert_eq!(watched.name.as_deref(), Some("engine.timer"));
            assert_eq!(watched.retvalue, "");
            assert_eq!(watched.kv.len(), 1);
            assert_eq!(watched.kv.get("time"), Some("1095112795"));
        }
        other => panic!("{other:?}"),
    }
}

#[test]
fn get_local() {
    let call = getlocal("engine.version".to_string());
    assert_eq!(call.line, "%%>setlocal:engine.version:");
    assert_eq!(call.topic, Topic::SetLocalAck("engine.version".to_string()));

    let mut hub = Subscriber::new();
    let sub = hub.subscribe(call.topic);
    let frame = "%%<setlocal:engine.version:6.4.0:true";
    assert!(matches!(sub.poll_next(&hub, Peek::Frame(frame)), Step::Match));
    match next::<SetLocalAck>(Some(Subed::Yes(frame.to_string()))) {
        Next::Item(ack) => assert_eq!(getlocal_ack(Some(ack)), Ok("6.4.0".to_string())),
        other => panic!("{other:?}"),
    }
}

#[test]
fn quit_ends_every_subscription() {
    let call = quit();
    assert_eq!(call.line, "%%>quit");
    assert_eq!(call.topic, Topic::QuitAck);

    let mut hub = Subscriber::new();
    let handler = hub.subscribe(messages());
    let sub = hub.subscribe(call.topic);
    assert!(matches!(sub.poll_next(&hub, Peek::Frame("%%<quit")), Step::Match));
    assert_eq!(quit_ack(&mut hub, None), Err(Error::UnexpectedEof));
    assert!(hub.is_subscribed(handler.topic()));
    match next::<QuitAck>(Some(Subed::Yes("%%<quit".to_string()))) {
        Next::Item(ack) => assert_eq!(quit_ack(&mut hub, Some(ack)), Ok(())),
        other => panic!("{other:?}"),
    }
    assert!(!hub.is_subscribed(handler.topic()));
    assert!(matches!(handler.poll_next(&hub, Peek::End), Step::End));
    assert!(matches!(
        handler.poll_next(&hub, Peek::Frame("%%>message:a:1:b:")),
        Step::End
    ));
}

#[test]
fn requests_are_written_and_awaited() {
    let call = install(None, "engine.timer".to_string(), Some(("key".to_string(), None)));
    assert_eq!(call.line, "%%>install::engine.timer:key");
    let call = install(
        Some(50),
        "engine.timer".to_string(),
        Some(("key".to_string(), Some("value".to_string()))),
    );
    assert_eq!(call.line, "%%>install:50:engine.timer:key:value");

    let call = uninstall("engine.timer".to_string());
    assert_eq!(call.line, "%%>uninstall:engine.timer");
    assert_eq!(call.topic, Topic::UninstallAck("engine.timer".to_string()));

    let call = watch("engine.timer".to_string());
    assert_eq!(call.line, "%%>watch:engine.timer");
    assert_eq!(call.topic, Topic::WatchAck("engine.timer".to_string()));

    let call = unwatch("engine.timer".to_string());
    assert_eq!(call.line, "%%>unwatch:engine.timer");
    assert_eq!(call.topic, Topic::UnwatchAck("engine.timer".to_string()));

    let call = setlocal("trackparam".to_string(), "yengine.1".to_string());
    assert_eq!(call.line, "%%>setlocal:trackparam:yengine.1");
    assert_eq!(call.topic, Topic::SetLocalAck("trackparam".to_string()));

    let mut kv = Params::new();
    kv.insert("job".to_string(), "cleanup".to_string());
    kv.insert("done".to_string(), "75%".to_string());
    let call = message(
        "yengine.1.4".to_string(),
        1095112794,
        "app.job".to_string(),
        String::new(),
        kv,
    );
    assert_eq!(call.line, "%%>message:yengine.1.4:1095112794:app.job::done=75%%:job=cleanup");
    assert_eq!(call.topic, Topic::MessageAck("yengine.1.4".to_string()));

    assert_eq!(messages(), Topic::Message);
    assert_eq!(watches(), Topic::Watch);
}

#[test]
fn lines_without_answer() {
    assert_eq!(connect(ConnectRole::Global, None), "%%>connect:global");
    assert_eq!(
        connect(ConnectRole::Play, Some(("ourstream/1".to_string(), None))),
        "%%>connect:play:ourstream/1"
    );
    assert_eq!(
        connect(
            ConnectRole::PlayRec,
            Some(("ourstream/1".to_string(), Some("audio".to_string())))
        ),
        "%%>connect:playrec:ourstream/1:audio"
    );
    assert_eq!(output("10% done: go on".to_string()), "%%>output:10%% done%z go on");
    assert_eq!(debug(7, "seven".to_string()), "%%>debug:7:seven");
}

#[test]
fn a_request_is_acknowledged_with_what_it_holds() {
    let received =
        from_str::<Message>("%%>message:0x7f.1:1095112795:call.route:none:caller=1:called=2")
            .unwrap();
    let mut request = Request::new(received);
    assert_eq!(request.deref().name, "call.route");
    request.message_mut().retvalue = "sip/2".to_string();
    assert_eq!(
        ack(request, true),
        "%%<message:0x7f.1:true:call.route:sip/2:called=2:caller=1"
    );

    let received = from_str::<Message>("%%>message:0x7f.2:1095112795:call.route:").unwrap();
    let request = Request::new(received);
    let inner = request.into_inner();
    assert_eq!(inner.id, "0x7f.2");
    assert_eq!(ack(Request::new(inner), false), "%%<message:0x7f.2:false:call.route:");
}

#[test]
fn a_message_is_processed_only_if_its_handler_says_so() {
    assert!(processed::<Error>(&Ok(true)));
    assert!(!processed::<Error>(&Ok(false)));
    assert!(!processed(&Err::<bool, _>(Error::UnexpectedEof)));
}

#[test]
fn an_error_of_the_engine_is_reported_and_not_answered() {
    match default_response("Error in:%%>install:x:engine.timer") {
        Response::Report(original) => assert_eq!(original, "%%>install:x:engine.timer"),
        other => panic!("{other:?}"),
    }
    match default_response("Error in:this is an error") {
        Response::Report(original) => assert_eq!(original, "this is an error"),
        other => panic!("{other:?}"),
    }
    match default_response("Error in:100%") {
        Response::Report(original) => assert_eq!(original, "100%"),
        other => panic!("{other:?}"),
    }
}

#[test]
fn unknown_frames_are_dropped() {
    assert!(matches!(default_response(""), Response::Drop));
    assert!(matches!(default_response("%%<quit"), Response::Drop));
    assert!(matches!(default_response("%%<install:100:a:true"), Response::Drop));
    assert!(matches!(default_response("Error in"), Response::Drop));
}

#[test]
fn what_a_subscription_makes_of_an_item() {
    assert!(matches!(next::<InstallAck>(None), Next::End));
    assert!(matches!(
        next::<InstallAck>(Some(Subed::Yes("%%<install:x:a:true".to_string()))),
        Next::Failed(Error::Format(yengine::format::Error::Reflect))
    ));
    assert!(matches!(
        next::<InstallAck>(Some(Subed::No("%%<quit".to_string()))),
        Next::Respond(Response::Drop)
    ));
}

#[test]
fn the_end_of_the_stream_is_unexpected() {
    assert_eq!(expect::<bool>(None), Err(Error::UnexpectedEof));
    assert_eq!(expect(Some(true)), Ok(true));
    assert_eq!(install_ack(None), Err(Error::UnexpectedEof));
    assert_eq!(uninstall_ack(None), Err(Error::UnexpectedEof));
    assert_eq!(watch_ack(None), Err(Error::UnexpectedEof));
    assert_eq!(unwatch_ack(None), Err(Error::UnexpectedEof));
    assert_eq!(setlocal_ack(None), Err(Error::UnexpectedEof));
    assert_eq!(getlocal_ack(None), Err(Error::UnexpectedEof));
    assert_eq!(message_ack(None).unwrap_err(), Error::UnexpectedEof);
    assert_eq!(quit_ack(&mut Subscriber::new(), None), Err(Error::UnexpectedEof));
}

#[test]
fn answers_give_what_the_caller_asked_for() {
    let ack = from_str::<UninstallAck>("%%<uninstall:50:engine.timer:true").unwrap();
    assert_eq!(uninstall_ack(Some(ack)), Ok(true));
    let ack = from_str::<WatchAck>("%%<watch:engine.timer:false").unwrap();
    assert_eq!(watch_ack(Some(ack)), Ok(false));
    let ack = from_str::<UnwatchAck>("%%<unwatch:engine.timer:true").unwrap();
    assert_eq!(unwatch_ack(Some(ack)), Ok(true));
    let ack = from_str::<SetLocalAck>("%%<setlocal:trackparam:yengine.1:false").unwrap();
    assert_eq!(setlocal_ack(Some(ack)), Ok(false));

    let ack = from_str::<MessageAck>(
        "%%<message:yengine.1.4:true:app.job:Restart required:path=/bin%Z/usr/bin",
    )
    .unwrap();
    let (processed, retvalue, kv) = message_ack(Some(ack)).unwrap();
    assert!(processed);
    assert_eq!(retvalue, "Restart required");
    assert_eq!(kv.len(), 1);
    assert_eq!(kv.get("path"), Some("/bin\x1a/usr/bin"));
}

#[test]
fn ids_name_the_product() {
    assert_eq!(id_of("abcdefghijkl"), "yengine.abcdefghijkl");
    assert_eq!(id_of(""), "yengine.");

    let first = id();
    assert_eq!(first.len(), 20);
    assert!(first.starts_with("yengine."));
    assert!(first[8..].chars().all(|c| c.is_ascii_alphanumeric()));
    let token = first[8..].to_string();
    assert_ne!(first, token);
}
