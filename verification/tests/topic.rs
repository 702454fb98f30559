use yengine::engine::Topic;

#[test]
fn acks_are_classified_by_name() {
    assert_eq!(
        Topic::topic("%%<install:100:engine.timer:true"),
        Topic::InstallAck("engine.timer".to_string())
    );
    assert_eq!(
        Topic::topic("%%<uninstall:50:engine.timer:false"),
        Topic::UninstallAck("engine.timer".to_string())
    );
    assert_eq!(
        Topic::topic("%%<watch:call.route:true"),
        Topic::WatchAck("call.route".to_string())
    );
    assert_eq!(
        Topic::topic("%%<unwatch:call.route:true"),
        Topic::UnwatchAck("call.route".to_string())
    );
    assert_eq!(
        Topic::topic("%%<setlocal:trackparam:yengine.1:true"),
        Topic::SetLocalAck("trackparam".to_string())
    );
}

#[test]
fn messages_are_classified() {
    assert_eq!(
        Topic::topic("%%>message:yengine.1.1:1095112795:engine.timer:"),
        Topic::Message
    );
    assert_eq!(
        Topic::topic("%%<message:234479208:false:engine.timer::time=1095112795"),
        Topic::MessageAck("234479208".to_string())
    );
    assert_eq!(Topic::topic("%%<quit"), Topic::QuitAck);
}

#[test]
fn the_name_of_a_topic_is_unescaped() {
    assert_eq!(
        Topic::topic("%%<watch:a%zb:true"),
        Topic::WatchAck("a:b".to_string())
    );
}

#[test]
fn anything_else_is_other() {
    assert_eq!(Topic::topic(""), Topic::Other);
    assert_eq!(Topic::topic("garbage"), Topic::Other);
    assert_eq!(Topic::topic("Error in:this is an error"), Topic::Other);
    assert_eq!(Topic::topic("%%>install:50:engine.timer"), Topic::Other);
    assert_eq!(Topic::topic("%%<install:many:engine.timer:true"), Topic::Other);
    assert_eq!(Topic::topic("%%<install:100:engine.timer"), Topic::Other);
    assert_eq!(Topic::topic("%%<watch:engine.timer:maybe"), Topic::Other);
}

#[test]
fn topics_compare_by_what_they_hold() {
    assert_eq!(Topic::InstallAck("a".to_string()), Topic::InstallAck("a".to_string()));
    assert_ne!(Topic::InstallAck("a".to_string()), Topic::InstallAck("b".to_string()));
    assert_ne!(Topic::InstallAck("a".to_string()), Topic::UninstallAck("a".to_string()));
    assert_ne!(Topic::Message, Topic::Watch);
    assert_eq!(Topic::MessageAck("x".to_string()).clone(), Topic::MessageAck("x".to_string()));
}
