use cachekit::decode_reply;
use cachekit::publish_outcome;
use cachekit::Cache;
use cachekit::CacheError;
use cachekit::CacheStorage;
use cachekit::ControlFlow;
use cachekit::MemoryCache;
use cachekit::WireReply;

#[test]
fn test_set_get() {
    let mut cache = CacheStorage::new(MemoryCache::new());

    // an integer value
    cache.set("key.name".to_string(), 1u8).unwrap();
    let v = cache.get::<u8>("key.name".to_string()).unwrap().unwrap();
    assert_eq!(v, 1);

    // a string value
    cache
        .set("key.name".to_string(), String::from("hello world"))
        .unwrap();
    let v = cache
        .get::<String>("key.name".to_string())
        .unwrap()
        .unwrap();
    assert_eq!(v, String::from("hello world"));

    // a value that arrived as bytes
    cache
        .set(
            "key.name".to_string(),
            String::from_utf8(b"bytes".to_vec()).unwrap(),
        )
        .unwrap();
    let v = cache.get::<String>("key.name".to_string()).unwrap();
    if let Some(v) = v {
        assert_eq!(v, "bytes".to_string());
    } else {
        assert!(false);
    }
}

#[test]
fn test_get_never_written() {
    let cache = CacheStorage::new(MemoryCache::new());
    let r = cache.get::<String>("nobody.wrote.this".to_string());
    assert!(matches!(r, Ok(None)));
}

#[test]
fn test_get_after_forget_is_none() {
    let mut cache = CacheStorage::new(MemoryCache::new());
    cache.set("key.name".to_string(), 7u8).unwrap();
    let taken = cache.forget::<u8>("key.name".to_string()).unwrap();
    assert_eq!(taken, Some(7));
    let r = cache.get::<u8>("key.name".to_string());
    assert!(matches!(r, Ok(None)));
}

#[test]
fn test_forget_never_written() {
    let mut cache = CacheStorage::new(MemoryCache::new());
    let r = cache.forget::<String>("key.name".to_string());
    assert!(matches!(r, Ok(None)));
}

#[test]
fn test_get_decode_failure() {
    let mut cache = CacheStorage::new(MemoryCache::new());
    cache
        .set("key.name".to_string(), String::from("hello"))
        .unwrap();
    let r = cache.get::<u8>("key.name".to_string());
    assert!(matches!(r, Err(CacheError::Decode(_))));
}

#[test]
fn test_set_overwrites() {
    let mut cache = CacheStorage::new(MemoryCache::new());
    cache.set("key.name".to_string(), 1u8).unwrap();
    cache.set("key.name".to_string(), 2u8).unwrap();
    let v = cache.get::<u8>("key.name".to_string()).unwrap();
    assert_eq!(v, Some(2));
}

#[test]
fn test_publish() {
    // nobody is listening: no positive confirmation, so an error
    let mut cache = CacheStorage::new(MemoryCache::new());
    let r = cache.publish("channel1".to_string(), String::from("heelo"));
    assert!(matches!(r, Err(CacheError::PublishNotAcknowledged)));
}

#[test]
fn test_publish_with_listener() {
    let mut backend = MemoryCache::new();
    backend.listen("channel1").unwrap();
    let mut cache = CacheStorage::new(backend);
    let r = cache.publish("channel1".to_string(), String::from("heelo"));
    assert!(r.is_ok());
}

#[test]
fn test_subscribe() {
    let mut backend = MemoryCache::new();
    backend.listen("channel1").unwrap();
    let mut cache = CacheStorage::new(backend);
    cache
        .publish(
            "channel1".to_string(),
            String::from("Hey! check out what I sent ya way :)"),
        )
        .unwrap();
    let r = cache.subscribe::<String, _>("channel1".to_string(), |msg| ControlFlow::Break(msg));
    assert_eq!(
        r.unwrap(),
        Some(String::from("Hey! check out what I sent ya way :)"))
    );
}

#[test]
fn test_subscribe_breaks_on_first_message() {
    let mut backend = MemoryCache::new();
    backend.listen("channel1").unwrap();
    let mut cache = CacheStorage::new(backend);
    cache
        .publish("channel1".to_string(), String::from("ping"))
        .unwrap();
    cache
        .publish("channel1".to_string(), String::from("pong"))
        .unwrap();
    let r = cache.subscribe::<String, _>("channel1".to_string(), |msg| ControlFlow::Break(msg));
    assert_eq!(r.unwrap(), Some(String::from("ping")));
}

#[test]
fn test_subscribe_continues_until_break() {
    let mut backend = MemoryCache::new();
    backend.listen("jobs").unwrap();
    let mut cache = CacheStorage::new(backend);
    cache.publish("jobs".to_string(), 1u8).unwrap();
    cache.publish("jobs".to_string(), 2u8).unwrap();
    cache.publish("jobs".to_string(), 3u8).unwrap();
    let r = cache.subscribe::<u8, _>("jobs".to_string(), |n| {
        if n >= 2 {
            ControlFlow::Break(n)
        } else {
            ControlFlow::Continue
        }
    });
    assert_eq!(r.unwrap(), Some(2));
}

#[test]
fn test_subscribe_decode_failure_is_fatal() {
    let mut backend = MemoryCache::new();
    backend.listen("jobs").unwrap();
    let mut cache = CacheStorage::new(backend);
    cache
        .publish("jobs".to_string(), String::from("notanumber"))
        .unwrap();
    let r = cache.subscribe::<u8, _>("jobs".to_string(), |n| ControlFlow::Break(n));
    assert!(matches!(r, Err(CacheError::Decode(_))));
}

#[test]
fn test_subscribe_connection_gone() {
    // a topic with no pending message: the in-memory connection ends
    let mut backend = MemoryCache::new();
    backend.listen("quiet").unwrap();
    let mut cache = CacheStorage::new(backend);
    let r = cache.subscribe::<String, _>("quiet".to_string(), |msg| ControlFlow::Break(msg));
    assert!(matches!(r, Err(CacheError::Connection(_))));
}

#[test]
fn test_decode_reply_table() {
    // the decode table, shape by shape
    assert!(matches!(decode_reply::<u8>(WireReply::Nil), Ok(None)));
    assert!(matches!(
        decode_reply::<u8>(WireReply::Integer(42)),
        Ok(Some(42))
    ));
    assert!(matches!(
        decode_reply::<u8>(WireReply::Integer(300)),
        Err(CacheError::Decode(_))
    ));
    assert!(matches!(
        decode_reply::<u8>(WireReply::Bytes(b"17".to_vec())),
        Ok(Some(17))
    ));
    assert!(matches!(
        decode_reply::<u8>(WireReply::Bytes(b"abc".to_vec())),
        Err(CacheError::Decode(_))
    ));
    assert!(matches!(
        decode_reply::<String>(WireReply::Bytes(vec![0xff, 0xfe])),
        Err(CacheError::Decode(_))
    ));
    assert!(matches!(
        decode_reply::<u8>(WireReply::List(vec![WireReply::Nil])),
        Err(CacheError::Protocol(_))
    ));
    assert!(matches!(
        decode_reply::<u8>(WireReply::Status("OK".to_string())),
        Ok(None)
    ));
    assert!(matches!(decode_reply::<u8>(WireReply::Ack), Ok(None)));
}

#[test]
fn test_decode_reply_integer_as_string() {
    // an integer reply decodes through its decimal rendering
    assert!(matches!(
        decode_reply::<String>(WireReply::Integer(-7)),
        Ok(Some(s)) if s == "-7"
    ));
}

#[test]
fn test_publish_outcome_rule() {
    // the acknowledgement rule, shape by shape
    assert!(matches!(publish_outcome(WireReply::Integer(0)), Ok(())));
    assert!(matches!(publish_outcome(WireReply::Integer(3)), Ok(())));
    assert!(matches!(
        publish_outcome(WireReply::Bytes(b"1".to_vec())),
        Ok(())
    ));
    assert!(matches!(
        publish_outcome(WireReply::Status("wrongside".to_string())),
        Err(CacheError::Protocol(m)) if m == "wrongside"
    ));
    assert!(matches!(
        publish_outcome(WireReply::Nil),
        Err(CacheError::PublishNotAcknowledged)
    ));
    assert!(matches!(
        publish_outcome(WireReply::Ack),
        Err(CacheError::PublishNotAcknowledged)
    ));
    assert!(matches!(
        publish_outcome(WireReply::List(vec![])),
        Err(CacheError::Protocol(_))
    ));
}
