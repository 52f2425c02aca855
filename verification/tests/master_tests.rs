use mcaptcha::counter::Counter;
use mcaptcha::defense::Defense;
use mcaptcha::defense::Level;
use mcaptcha::master::Master;
use mcaptcha::master::MasterMessage;
use mcaptcha::master::MasterReply;
use mcaptcha::master::GetSite;
use mcaptcha::messages::AddVisitor;
use mcaptcha::messages::Rename;

fn defense(levels: &[(u32, u32)]) -> Defense {
    let levels: Vec<Level> = levels
        .iter()
        .map(|&(visitor_threshold, difficulty_factor)| Level {
            visitor_threshold,
            difficulty_factor,
        })
        .collect();
    Defense::new(levels).unwrap()
}

fn counter(levels: &[(u32, u32)], duration: u64, visitor_lifetime: u64) -> Counter {
    Counter::new(defense(levels), duration, visitor_lifetime)
}

#[test]
fn master_actor_works() {
    let mut master = Master::new(1);

    let id = "yo";
    master.add_site(counter(&[(0, 50)], 5, 5000), id.to_string());

    let mcaptcha = master.get_site(&id.to_string());
    assert!(mcaptcha.is_some());

    let new_id = "yoyo";
    master.rename(Rename { name: id.to_string(), rename_to: new_id.to_string() });
    let mcaptcha = master.get_site(&new_id.to_string());
    assert!(mcaptcha.is_some());

    let does_not_exist = master.get_site(&"a".to_string());
    assert!(does_not_exist.is_none());

    // the site was looked up and has no visitors, so the next
    // garbage-collection pass evicts it
    master.cleanup(10_000);
    let mcaptcha = master.get_site(&new_id.to_string());
    assert!(mcaptcha.is_none());

    assert!(master.remove_captcha(&new_id.to_string()).is_none());
}

#[test]
fn master_lifecycle() {
    let mut master = Master::new(1);
    master.add_site(counter(&[(0, 10)], 5, 1000), "yo".to_string());
    assert!(master.get_site(&"yo".to_string()).is_some());
    master.rename(Rename { name: "yo".to_string(), rename_to: "yoyo".to_string() });
    assert!(master.get_site(&"yoyo".to_string()).is_some());
    assert!(master.get_site(&"a".to_string()).is_none());
    let evicted = master.cleanup(2000);
    assert_eq!(evicted, 1);
    assert!(master.get_site(&"yoyo".to_string()).is_none());
    assert!(master.remove_captcha(&"yoyo".to_string()).is_none());
}

#[test]
fn gc_requires_touched() {
    let mut master = Master::new(1);
    master.add_site(counter(&[(0, 10)], 5, 1000), "fresh".to_string());
    // never looked up: a pass must not evict it
    assert_eq!(master.cleanup(10_000), 0);
    assert!(master.get_site(&"fresh".to_string()).is_some());
    // now it has been looked up and is idle: the next pass evicts
    assert_eq!(master.cleanup(20_000), 1);
    assert!(master.get_site(&"fresh".to_string()).is_none());
}

#[test]
fn gc_spares_busy_sites() {
    let mut master = Master::new(1);
    master.add_site(counter(&[(0, 10)], 5, 1000), "busy".to_string());
    let r = master.add_visitor(&"busy".to_string(), 0);
    assert_eq!(r.unwrap().difficulty_factor, 10);
    // one visitor is live until 1000: the pass at 500 must keep the site
    assert_eq!(master.cleanup(500), 0);
    assert!(master.get_site(&"busy".to_string()).is_some());
    // after the visitor lifetime the site is idle and touched: evicted
    assert_eq!(master.cleanup(1500), 1);
    assert!(master.get_site(&"busy".to_string()).is_none());
}

#[test]
fn rename_overwrite() {
    let mut master = Master::new(1);
    master.add_site(counter(&[(0, 10)], 5, 1000), "a".to_string());
    master.add_site(counter(&[(0, 20)], 5, 1000), "b".to_string());
    let displaced = master.rename(Rename { name: "a".to_string(), rename_to: "b".to_string() });
    // the counter that "b" held is handed back, stopped
    let displaced = displaced.unwrap();
    assert!(displaced.stopped);
    assert_eq!(displaced.defense.levels[0].difficulty_factor, 20);
    // "b" now refers to the counter registered under "a"
    let site = master.get_site(&"b".to_string()).unwrap();
    assert_eq!(site.defense.levels[0].difficulty_factor, 10);
    assert!(master.get_site(&"a".to_string()).is_none());
}

#[test]
fn rename_keeps_touched_flag() {
    let mut master = Master::new(1);
    master.add_site(counter(&[(0, 10)], 5, 1000), "a".to_string());
    // look the site up, then rename it: the looked-up flag survives the
    // re-keying, so the next pass evicts the renamed idle site without
    // another lookup
    assert!(master.get_site(&"a".to_string()).is_some());
    master.rename(Rename { name: "a".to_string(), rename_to: "b".to_string() });
    assert_eq!(master.cleanup(10_000), 1);
    assert!(master.get_site(&"b".to_string()).is_none());
}

#[test]
fn rename_absent_is_noop() {
    let mut master = Master::new(1);
    master.add_site(counter(&[(0, 10)], 5, 1000), "a".to_string());
    let displaced = master.rename(Rename {
        name: "missing".to_string(),
        rename_to: "b".to_string(),
    });
    assert!(displaced.is_none());
    assert!(master.get_site(&"a".to_string()).is_some());
    assert!(master.get_site(&"b".to_string()).is_none());
}

#[test]
fn add_site_replaces_and_stops() {
    let mut master = Master::new(1);
    master.add_site(counter(&[(0, 10)], 5, 1000), "a".to_string());
    let prev = master.add_site(counter(&[(0, 20)], 5, 1000), "a".to_string());
    let prev = prev.unwrap();
    assert!(prev.stopped);
    assert_eq!(prev.defense.levels[0].difficulty_factor, 10);
    let site = master.get_site(&"a".to_string()).unwrap();
    assert_eq!(site.defense.levels[0].difficulty_factor, 20);
}

#[test]
fn add_visitor_unknown_site() {
    let mut master = Master::new(1);
    assert!(master.add_visitor(&"nope".to_string(), 0).is_none());
}

#[test]
fn master_handle_dispatch() {
    let mut master = Master::new(1);
    master.add_site(counter(&[(0, 33)], 7, 1000), "yo".to_string());
    let reply = master.handle(MasterMessage::AddVisitor(AddVisitor("yo".to_string())), 0);
    match reply {
        MasterReply::Visitor(Some(r)) => {
            assert_eq!(r.difficulty_factor, 33);
            assert_eq!(r.duration, 7);
        },
        _ => panic!("expected a visitor result"),
    }
    let reply = master.handle(MasterMessage::GetSite(GetSite("yo".to_string())), 0);
    assert!(matches!(reply, MasterReply::Site(Some(_))));
    let reply = master.handle(MasterMessage::GetSite(GetSite("nope".to_string())), 0);
    assert!(matches!(reply, MasterReply::Site(None)));
}
