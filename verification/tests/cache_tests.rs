use mcaptcha::cache::CacheMessage;
use mcaptcha::cache::CacheReply;
use mcaptcha::cache::HashCache;
use mcaptcha::messages::CachePoW;
use mcaptcha::messages::CacheResult;
use mcaptcha::messages::RetrivePoW;
use mcaptcha::messages::VerifyCaptchaResult;

fn pow_msg(challenge: &str, difficulty_factor: u32, duration: u64, key: &str) -> CachePoW {
    CachePoW {
        string: challenge.to_string(),
        difficulty_factor,
        duration,
        key: key.to_string(),
    }
}

#[test]
fn hashcache_pow_cache_works() {
    let difficulty_factor: u32 = 54;
    let duration: u64 = 5;
    let key = "mcaptchakey";
    let mut cache = HashCache::default();
    let string = "pow_string".to_string();

    cache.cache_pow(pow_msg(&string, difficulty_factor, duration, key), 0);

    let cached = cache.retrieve_pow(&string, 0).unwrap();
    assert_eq!(difficulty_factor, cached.difficulty_factor);

    let expired = cache.retrieve_pow(&string, duration + duration);
    assert_eq!(None, expired);
}

#[test]
fn hashcache_result_cache_works() {
    let duration: u64 = 5;
    let key = "a";
    let res = "b";
    let mut cache = HashCache::default();

    let add_cache = CacheResult {
        key: key.to_string(),
        token: res.to_string(),
        duration,
    };
    cache.cache_result(add_cache, 0);

    let verify_msg = VerifyCaptchaResult { key: key.to_string(), token: res.to_string() };
    assert!(cache.verify_result(&verify_msg, 0));
    // duplicate
    assert!(!cache.verify_result(&verify_msg, 0));

    let verify_msg = VerifyCaptchaResult { key: "cz".to_string(), token: res.to_string() };
    assert!(!cache.verify_result(&verify_msg, 0));

    let verify_msg = VerifyCaptchaResult { key: key.to_string(), token: res.to_string() };
    assert!(!cache.verify_result(&verify_msg, duration + duration));
}

#[test]
fn pow_round_trip() {
    let mut cache = HashCache::new();
    cache.cache_pow(pow_msg("X", 54, 5, "k"), 0);
    let first = cache.retrieve_pow(&"X".to_string(), 1);
    assert_eq!(first.unwrap().difficulty_factor, 54);
    let second = cache.retrieve_pow(&"X".to_string(), 1);
    assert!(second.is_none());
}

#[test]
fn pow_expiry() {
    let mut cache = HashCache::new();
    cache.cache_pow(pow_msg("X", 54, 5, "k"), 0);
    assert!(cache.retrieve_pow(&"X".to_string(), 10).is_none());
}

#[test]
fn pow_expiry_boundary() {
    let mut cache = HashCache::new();
    cache.cache_pow(pow_msg("X", 54, 5, "k"), 0);
    // still live strictly before the deadline
    assert!(cache.retrieve_pow(&"X".to_string(), 4).is_some());
    let mut cache = HashCache::new();
    cache.cache_pow(pow_msg("X", 54, 5, "k"), 0);
    // gone from the deadline on
    assert!(cache.retrieve_pow(&"X".to_string(), 5).is_none());
}

#[test]
fn token_one_shot() {
    let mut cache = HashCache::new();
    cache.cache_result(
        CacheResult { token: "b".to_string(), key: "a".to_string(), duration: 5 },
        0,
    );
    let right = VerifyCaptchaResult { token: "b".to_string(), key: "a".to_string() };
    assert!(cache.verify_result(&right, 0));
    assert!(!cache.verify_result(&right, 0));
    let other = VerifyCaptchaResult { token: "b".to_string(), key: "cz".to_string() };
    assert!(!cache.verify_result(&other, 0));
}

#[test]
fn token_bad_guess_consumes() {
    let mut cache = HashCache::new();
    cache.cache_result(
        CacheResult { token: "b".to_string(), key: "a".to_string(), duration: 5 },
        0,
    );
    let wrong = VerifyCaptchaResult { token: "b".to_string(), key: "cz".to_string() };
    let right = VerifyCaptchaResult { token: "b".to_string(), key: "a".to_string() };
    // a bad guess consumes the token, so the right guess then fails too
    assert!(!cache.verify_result(&wrong, 0));
    assert!(!cache.verify_result(&right, 0));
}

#[test]
fn delete_pow_idempotent() {
    let mut cache = HashCache::new();
    cache.cache_pow(pow_msg("X", 7, 5, "k"), 0);
    cache.delete_pow(&"X".to_string());
    cache.delete_pow(&"X".to_string());
    assert!(cache.retrieve_pow(&"X".to_string(), 0).is_none());
}

#[test]
fn stale_timer_is_noop_on_overwrite() {
    let mut cache = HashCache::new();
    // first entry would expire at 5
    cache.cache_pow(pow_msg("X", 1, 5, "k"), 0);
    // overwritten at 4: the new entry expires at 9
    let deadline = cache.cache_pow(pow_msg("X", 2, 5, "k"), 4);
    assert_eq!(deadline, 9);
    // the first entry's timer fires at 5 and must not delete the successor
    cache.expire_pow(&"X".to_string(), 5);
    let got = cache.retrieve_pow(&"X".to_string(), 6).unwrap();
    assert_eq!(got.difficulty_factor, 2);
}

#[test]
fn expire_result_after_deadline() {
    let mut cache = HashCache::new();
    let deadline = cache.cache_result(
        CacheResult { token: "t".to_string(), key: "k".to_string(), duration: 3 },
        0,
    );
    assert_eq!(deadline, 3);
    cache.expire_result(&"t".to_string(), deadline);
    let msg = VerifyCaptchaResult { token: "t".to_string(), key: "k".to_string() };
    assert!(!cache.verify_result(&msg, deadline));
}

#[test]
fn cache_handle_dispatch() {
    let mut cache = HashCache::new();
    let reply = cache.handle(CacheMessage::CachePoW(pow_msg("X", 54, 5, "k")), 0);
    assert_eq!(reply, CacheReply::Saved(5));
    let reply = cache.handle(CacheMessage::RetrivePoW(RetrivePoW("X".to_string())), 1);
    match reply {
        CacheReply::Pow(Some(cfg)) => assert_eq!(cfg.difficulty_factor, 54),
        _ => panic!("expected the cached puzzle"),
    }
    let reply = cache.handle(CacheMessage::RetrivePoW(RetrivePoW("X".to_string())), 1);
    assert_eq!(reply, CacheReply::Pow(None));
}
