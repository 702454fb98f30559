use std::collections::VecDeque;

use yengine::format::de::Deserializer;
use yengine::format::field::{maybe_pair_shape, scalar_shape, text_value};
use yengine::format::number::{parse_number, push_decimal};
use yengine::format::params::precedes;
use yengine::format::scalar::{Kind, Scalar};
use yengine::format::ser::Serializer;
use yengine::format::shape::{Shape, Value};
use yengine::format::text::{cut, is_long, join, same, split, SOFT_BOUND};
use yengine::format::upcode::DecodeError;
use yengine::format::{
    from_str, to_string, Connect, ConnectRole, Error, ErrorIn, Install, InstallAck, Message,
    MessageAck, Params, Quit, QuitAck, Record, SetLocal, Watch,
};

fn parts(frame: &str) -> Vec<String> {
    split(frame).into_iter().collect()
}

#[test]
fn an_empty_frame_has_no_segments() {
    assert_eq!(parts(""), Vec::<String>::new());
    assert_eq!(parts("a"), vec!["a"]);
    assert_eq!(parts(":"), vec!["", ""]);
    assert_eq!(parts("a::b:"), vec!["a", "", "b", ""]);
    assert_eq!(cut("", ':').len(), 1);
    assert_eq!(cut("a=b=c", '=').into_iter().collect::<Vec<_>>(), vec!["a", "b", "c"]);
}

#[test]
fn a_line_over_the_soft_bound_is_long() {
    assert_eq!(SOFT_BOUND, 8192);
    assert!(!is_long(""));
    assert!(!is_long(&"x".repeat(8192)));
    assert!(is_long(&"x".repeat(8193)));
    assert!(is_long(&"é".repeat(4097)));
}

#[test]
fn joining_puts_colons_between() {
    assert_eq!(join(&vec![]), "");
    assert_eq!(join(&vec!["a".to_string()]), "a");
    assert_eq!(join(&vec!["a".to_string(), String::new(), "b".to_string()]), "a::b");
    assert_eq!(join(&parts("%%>install::engine.timer:key")), "%%>install::engine.timer:key");
}

#[test]
fn texts_are_compared() {
    assert!(same("", ""));
    assert!(same("abc", "abc"));
    assert!(!same("abc", "abd"));
    assert!(!same("abc", "ab"));
    assert!(!same("ab", "abc"));

    assert!(precedes("", "a"));
    assert!(precedes("a", "b"));
    assert!(precedes("ab", "abc"));
    assert!(precedes("Z", "a"));
    assert!(precedes("z", "é"));
    assert!(!precedes("a", "a"));
    assert!(!precedes("b", "a"));
    assert!(!precedes("abc", "ab"));
    assert!(!precedes("", ""));
}

#[test]
fn numbers_are_read() {
    assert_eq!(parse_number("0", u64::MAX), Some(0));
    assert_eq!(parse_number("1095112795", u64::MAX), Some(1095112795));
    assert_eq!(parse_number("+5", u64::MAX), Some(5));
    assert_eq!(parse_number("007", u64::MAX), Some(7));
    assert_eq!(parse_number("18446744073709551615", u64::MAX), Some(u64::MAX));
    assert_eq!(parse_number("18446744073709551616", u64::MAX), None);
    assert_eq!(parse_number("99999999999999999999999", u64::MAX), None);
    assert_eq!(parse_number("255", 255), Some(255));
    assert_eq!(parse_number("256", 255), None);
    assert_eq!(parse_number("", u64::MAX), None);
    assert_eq!(parse_number("+", u64::MAX), None);
    assert_eq!(parse_number("-1", u64::MAX), None);
    assert_eq!(parse_number("1+", u64::MAX), None);
    assert_eq!(parse_number("12a", u64::MAX), None);
    assert_eq!(parse_number(" 1", u64::MAX), None);
}

#[test]
fn numbers_are_written() {
    for (n, text) in [
        (0u64, "0"),
        (7, "7"),
        (10, "10"),
        (1095112795, "1095112795"),
        (u64::MAX, "18446744073709551615"),
    ] {
        let mut out = String::from("n=");
        push_decimal(&mut out, n);
        assert_eq!(out, format!("n={text}"));
        assert_eq!(parse_number(text, u64::MAX), Some(n));
    }
}

#[test]
fn scalars_have_a_text() {
    assert_eq!(Scalar::Text("a:b".to_string()).to_text(), "a:b");
    assert_eq!(Scalar::Number(50).to_text(), "50");
    assert_eq!(Scalar::Flag(true).to_text(), "true");
    assert_eq!(Scalar::Flag(false).to_text(), "false");
    assert_eq!(Scalar::Level(10).to_text(), "10");
    for (role, word) in [
        (ConnectRole::Global, "global"),
        (ConnectRole::Channel, "channel"),
        (ConnectRole::Play, "play"),
        (ConnectRole::Record, "record"),
        (ConnectRole::PlayRec, "playrec"),
    ] {
        assert_eq!(Scalar::Role(role).to_text(), word);
        assert_eq!(role.as_str(), word);
        assert_eq!(ConnectRole::parse(word), Some(role));
        assert!(matches!(Scalar::from_text(Kind::Role, word), Some(Scalar::Role(r)) if r == role));
    }
    assert_eq!(ConnectRole::parse("other"), None);
    assert!(Scalar::from_text(Kind::Role, "other").is_none());
    assert!(matches!(Scalar::from_text(Kind::Flag, "true"), Some(Scalar::Flag(true))));
    assert!(matches!(Scalar::from_text(Kind::Flag, "false"), Some(Scalar::Flag(false))));
    assert!(Scalar::from_text(Kind::Flag, "True").is_none());
    assert!(Scalar::from_text(Kind::Flag, "").is_none());
    assert!(matches!(Scalar::from_text(Kind::Level, "10"), Some(Scalar::Level(10))));
    assert!(Scalar::from_text(Kind::Level, "256").is_none());
    assert!(matches!(Scalar::from_text(Kind::Number, "256"), Some(Scalar::Number(256))));
    assert!(matches!(Scalar::from_text(Kind::Text, ""), Some(Scalar::Text(t)) if t.is_empty()));
    assert!(Scalar::default_of(Kind::Role).is_none());
    assert!(matches!(Scalar::default_of(Kind::Number), Some(Scalar::Number(0))));
}

#[test]
fn parameters_are_kept_in_the_order_of_their_keys() {
    let mut params = Params::new();
    assert_eq!(params.len(), 0);
    params.insert("path".to_string(), "/bin".to_string());
    params.insert("done".to_string(), "75%".to_string());
    params.insert("job".to_string(), "cleanup".to_string());
    assert_eq!(params.len(), 3);
    assert_eq!((params.key(0), params.value(0)), ("done", "75%"));
    assert_eq!((params.key(1), params.value(1)), ("job", "cleanup"));
    assert_eq!((params.key(2), params.value(2)), ("path", "/bin"));

    params.insert("job".to_string(), "sweep".to_string());
    assert_eq!(params.len(), 3);
    assert_eq!(params.get("job"), Some("sweep"));
    assert_eq!(params.get("jo"), None);
    assert_eq!(params.get("jobs"), None);

    let copy = params.clone();
    assert_eq!(copy.len(), 3);
    assert_eq!(copy.get("path"), Some("/bin"));
}

#[test]
fn every_error_has_an_input() {
    assert_eq!(from_str::<Watch>("").unwrap_err(), Error::MissingTag);
    assert_eq!(from_str::<Watch>("%%<watch:engine.timer").unwrap_err(), Error::MismatchedTag);
    assert_eq!(from_str::<Watch>(":engine.timer").unwrap_err(), Error::MismatchedTag);
    assert_eq!(from_str::<Watch>("%%>watch").unwrap_err(), Error::MissingValue);
    assert_eq!(from_str::<InstallAck>("%%<install:100:engine.timer").unwrap_err(), Error::MissingValue);
    assert_eq!(from_str::<SetLocal>("%%>setlocal:trackparam").unwrap_err(), Error::MissingValue);
    assert_eq!(from_str::<InstallAck>("%%<install:x:engine.timer:true").unwrap_err(), Error::Reflect);
    assert_eq!(from_str::<InstallAck>("%%<install:1:engine.timer:yes").unwrap_err(), Error::Reflect);
    assert_eq!(from_str::<Connect>("%%>connect:other").unwrap_err(), Error::Reflect);
    assert_eq!(from_str::<yengine::format::control::Debug>("%%>debug:256:text").unwrap_err(), Error::Reflect);
    assert_eq!(
        from_str::<Message>("%%>message:id:1:name:ret:novalue").unwrap_err(),
        Error::MisformedMap
    );
    assert_eq!(
        from_str::<Message>("%%>message:id:1:name:ret:a%0=1:novalue").unwrap_err(),
        Error::MisformedMap
    );
    assert_eq!(
        from_str::<Watch>("%%>watch:a%0").unwrap_err(),
        Error::InvalidUpcode(DecodeError('0'))
    );
    assert_eq!(
        from_str::<Message>("%%>message:id:1:name:ret:a=%1").unwrap_err(),
        Error::InvalidUpcode(DecodeError('1'))
    );
}

#[test]
fn the_first_error_is_the_one_that_comes() {
    assert_eq!(
        from_str::<InstallAck>("%%<install:x:a%0:true").unwrap_err(),
        Error::Reflect
    );
    assert_eq!(
        from_str::<InstallAck>("%%<install:1%0:a").unwrap_err(),
        Error::InvalidUpcode(DecodeError('0'))
    );
    assert_eq!(from_str::<InstallAck>("other:x").unwrap_err(), Error::MismatchedTag);
}

#[test]
fn segments_after_the_record_are_ignored() {
    assert!(from_str::<QuitAck>("%%<quit:and:more").is_ok());
    let ack = from_str::<InstallAck>("%%<install:100:engine.timer:true:more%0").unwrap();
    assert_eq!(to_string(&ack), "%%<install:100:engine.timer:true");
    let install = from_str::<Install>("%%>install:::skipped:value").unwrap();
    assert_eq!(install.name, "");
    assert_eq!(install.filter, Some(("skipped".to_string(), Some("value".to_string()))));
    let install = from_str::<Install>("%%>install::name::ignored").unwrap();
    assert_eq!(install.filter, None);
    assert_eq!(to_string(&install), "%%>install::name");
}

#[test]
fn default_truncation() {
    let whole = "%%>install:50:engine.timer:key:value";
    for (cut, filter) in [
        ("%%>install:50:engine.timer", None),
        ("%%>install:50:engine.timer:key", Some(("key".to_string(), None))),
        (whole, Some(("key".to_string(), Some("value".to_string())))),
    ] {
        assert!(whole.starts_with(cut));
        let install = from_str::<Install>(cut).unwrap();
        assert_eq!(install.priority, Some(50));
        assert_eq!(install.name, "engine.timer");
        assert_eq!(install.filter, filter);
        assert_eq!(to_string(&install), cut);
    }

    let whole = "%%>connect:record:ourstream/1:audio";
    for (cut, channel) in [
        ("%%>connect:record", None),
        ("%%>connect:record:ourstream/1", Some(("ourstream/1".to_string(), None))),
        (whole, Some(("ourstream/1".to_string(), Some("audio".to_string())))),
    ] {
        assert!(whole.starts_with(cut));
        let connect = from_str::<Connect>(cut).unwrap();
        assert_eq!(connect.role, ConnectRole::Record);
        assert_eq!(connect.channel, channel);
        assert_eq!(to_string(&connect), cut);
    }

    let whole = "%%>message:id:1:name:ret:a=1:b=2:c=3";
    for (cut, count) in [
        ("%%>message:id:1:name:ret", 0),
        ("%%>message:id:1:name:ret:a=1", 1),
        ("%%>message:id:1:name:ret:a=1:b=2", 2),
        (whole, 3),
    ] {
        assert!(whole.starts_with(cut));
        let message = from_str::<Message>(cut).unwrap();
        assert_eq!(message.kv.len(), count);
        assert_eq!(to_string(&message), cut);
    }
}

#[test]
fn records_are_read_back_from_their_frames() {
    let mut kv = Params::new();
    kv.insert("a:b".to_string(), "x=y%".to_string());
    kv.insert("".to_string(), "\n\t".to_string());
    let message = Message {
        id: "id:1".to_string(),
        time: u64::MAX,
        name: String::new(),
        retvalue: "100%".to_string(),
        kv,
    };
    let frame = to_string(&message);
    assert_eq!(frame, "%%>message:id%z1:18446744073709551615::100%%:=%J%I:a%zb=x=y%%");
    let back = from_str::<Message>(&frame).unwrap();
    assert_eq!(back.id, message.id);
    assert_eq!(back.time, message.time);
    assert_eq!(back.name, message.name);
    assert_eq!(back.retvalue, message.retvalue);
    assert_eq!(back.kv.len(), 2);
    assert_eq!(back.kv.get("a:b"), Some("x=y%"));
    assert_eq!(back.kv.get(""), Some("\n\t"));

    let local = SetLocal {
        name: "reason".to_string(),
        value: Some("busy: try later".to_string()),
    };
    let frame = to_string(&local);
    assert_eq!(frame, "%%>setlocal:reason:busy%z try later");
    let back = from_str::<SetLocal>(&frame).unwrap();
    assert_eq!(back.name, local.name);
    assert_eq!(back.value, local.value);
}

#[test]
fn a_key_with_an_equals_sign_is_not_read_back() {
    let mut kv = Params::new();
    kv.insert("a=b".to_string(), "c".to_string());
    let message = Message {
        id: "id".to_string(),
        time: 1,
        name: "name".to_string(),
        retvalue: String::new(),
        kv,
    };
    let back = from_str::<Message>(&to_string(&message)).unwrap();
    assert_eq!(back.kv.get("a=b"), None);
    assert_eq!(back.kv.get("a"), Some("b=c"));
}

#[test]
fn a_present_text_that_is_empty_is_read_as_absent() {
    let install = Install {
        priority: None,
        name: "engine.timer".to_string(),
        filter: Some((String::new(), Some("value".to_string()))),
    };
    let frame = to_string(&install);
    assert_eq!(frame, "%%>install::engine.timer::value");
    assert_eq!(from_str::<Install>(&frame).unwrap().filter, None);
}

#[test]
fn the_line_in_error_is_kept_as_it_is() {
    let report = from_str::<ErrorIn>("Error in:%%>install:x:engine.timer").unwrap();
    assert_eq!(report.original, "%%>install:x:engine.timer");
    assert_eq!(to_string(&report), "Error in:%%>install:x:engine.timer");

    let report = from_str::<ErrorIn>("Error in:").unwrap();
    assert_eq!(report.original, "");
    assert_eq!(to_string(&report), "Error in:");

    assert_eq!(from_str::<ErrorIn>("Error in").unwrap_err(), Error::MissingValue);
    assert_eq!(from_str::<ErrorIn>("Error in this").unwrap_err(), Error::MismatchedTag);
}

#[test]
fn a_map_keeps_the_last_value_of_a_key() {
    let message = from_str::<Message>("%%>message:id:1:name:ret:b=1:a=2:b=3:c=x=y").unwrap();
    assert_eq!(message.kv.len(), 3);
    assert_eq!(message.kv.get("a"), Some("2"));
    assert_eq!(message.kv.get("b"), Some("3"));
    assert_eq!(message.kv.get("c"), Some("x=y"));
    assert_eq!(to_string(&message), "%%>message:id:1:name:ret:a=2:b=3:c=x=y");
}

#[test]
fn values_are_escaped_and_tags_are_not() {
    let ack = MessageAck {
        id: "a:b".to_string(),
        processed: true,
        name: None,
        retvalue: "50%\n".to_string(),
        kv: Params::new(),
    };
    let frame = to_string(&ack);
    assert_eq!(frame, "%%<message:a%zb:true::50%%%J");
    let back = from_str::<MessageAck>(&frame).unwrap();
    assert_eq!(back.id, "a:b");
    assert_eq!(back.name, None);
    assert_eq!(back.retvalue, "50%\n");
}

#[test]
fn records_know_their_tag() {
    assert_eq!(Install::type_tag(), "%%>install");
    assert_eq!(ErrorIn::type_tag(), "Error in");
    assert_eq!(Quit::type_tag(), "%%>quit");
    assert_eq!(to_string(&Quit), "%%>quit");
}

#[test]
fn a_value_of_another_shape_is_no_record() {
    assert_eq!(
        InstallAck::from_value(text_value(&"x".to_string())).unwrap_err(),
        Error::Reflect
    );
    assert_eq!(
        InstallAck::from_value(Value::Struct(vec![Value::Absent])).unwrap_err(),
        Error::Reflect
    );
    let value = Install {
        priority: Some(1),
        name: "n".to_string(),
        filter: None,
    }
    .to_value();
    assert_eq!(InstallAck::from_value(value).unwrap_err(), Error::Reflect);
}

#[test]
fn the_serializer_writes_what_the_deserializer_reads() {
    let mut ser = Serializer::default();
    ser.serialize_tag("tag");
    ser.serialize_scalar(&Scalar::Text("a:b".to_string()));
    ser.serialize_option(&Value::Absent, &maybe_pair_shape(), false);
    ser.serialize_option(&Value::Absent, &maybe_pair_shape(), true);
    ser.serialize_rest(&Scalar::Text("x:y".to_string()));
    let frame = ser.serialize("end", &Value::Struct(vec![]), &Shape::Struct(vec![]));
    assert_eq!(frame, "tag:a%zb::x:y:end");

    let mut de = Deserializer::new(VecDeque::from(vec![
        "tag".to_string(),
        "a%zb".to_string(),
        String::new(),
        "x".to_string(),
        "y".to_string(),
    ]));
    assert_eq!(de.deserialize_tag().unwrap(), "tag");
    assert!(matches!(
        de.deserialize_scalar(Kind::Text),
        Ok(Value::Scalar(Scalar::Text(text))) if text == "a:b"
    ));
    assert!(matches!(de.deserialize_option(&scalar_shape(Kind::Text), false), Ok(Value::Absent)));
    assert!(matches!(
        de.deserialize_rest(),
        Ok(Value::Scalar(Scalar::Text(text))) if text == "x:y"
    ));
    assert_eq!(de.deserialize_tag().unwrap_err(), Error::MissingTag);
    assert!(matches!(de.deserialize_map(), Ok(Value::Pairs(params)) if params.len() == 0));
    assert!(matches!(
        de.deserialize_value(&maybe_pair_shape(), true),
        Ok(Value::Absent)
    ));
    assert_eq!(de.deserialize_scalar(Kind::Text).unwrap_err(), Error::MissingValue);
}
