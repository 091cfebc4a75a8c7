use mioplays::limiter::{Admission, Limiter};

#[test]
fn gate_has_one_slot_where_the_machine_reports_none() {
    assert_eq!(Limiter::new(None).capacity(), 1);
    assert_eq!(Limiter::new(Some(0)).capacity(), 1);
    assert_eq!(Limiter::new(Some(1)).capacity(), 1);
    assert_eq!(Limiter::new(Some(8)).capacity(), 8);
}

#[test]
fn requests_beyond_the_slots_wait_in_line() {
    let mut limiter = Limiter::new(Some(2));
    assert_eq!(limiter.request(), Admission::Admitted);
    assert_eq!(limiter.request(), Admission::Admitted);
    assert_eq!(limiter.request(), Admission::Queued(0));
    assert_eq!(limiter.request(), Admission::Queued(1));
    assert_eq!((limiter.running(), limiter.waiting(), limiter.peak()), (2, 2, 2));
    assert_eq!(limiter.release(), Some(0));
    assert_eq!(limiter.release(), Some(1));
    assert_eq!((limiter.running(), limiter.waiting()), (2, 0));
    assert_eq!(limiter.release(), None);
    assert_eq!(limiter.release(), None);
    assert_eq!(limiter.release(), None);
    assert_eq!((limiter.running(), limiter.waiting(), limiter.peak()), (0, 0, 2));
    assert_eq!(limiter.request(), Admission::Admitted);
}

#[test]
fn abandoned_ticket_is_never_admitted() {
    let mut limiter = Limiter::new(Some(1));
    assert_eq!(limiter.request(), Admission::Admitted);
    assert_eq!(limiter.request(), Admission::Queued(0));
    assert_eq!(limiter.request(), Admission::Queued(1));
    assert_eq!(limiter.request(), Admission::Queued(2));
    assert!(limiter.abandon(1));
    assert!(!limiter.abandon(1));
    assert!(!limiter.abandon(7));
    assert_eq!(limiter.release(), Some(0));
    assert_eq!(limiter.release(), Some(2));
    assert_eq!(limiter.release(), None);
    assert_eq!(limiter.running(), 0);
}

#[test]
fn peak_of_many_decodes_stays_within_the_slots() {
    let slots = 3;
    let files = 25;
    let mut limiter = Limiter::new(Some(slots));
    let mut executing = 0usize;
    let mut seen_peak = 0usize;
    let mut finished = 0usize;
    for _ in 0..files {
        assert!(limiter.has_tickets());
        if limiter.request() == Admission::Admitted {
            executing += 1;
        }
        seen_peak = seen_peak.max(executing);
        assert!(executing <= slots);
    }
    while finished < files {
        assert!(executing > 0);
        finished += 1;
        if limiter.release().is_none() {
            executing -= 1;
        }
        seen_peak = seen_peak.max(executing);
        assert!(limiter.running() <= slots);
        assert_eq!(limiter.running(), executing);
    }
    assert_eq!(seen_peak, slots);
    assert_eq!(limiter.peak(), slots);
    assert_eq!((limiter.running(), limiter.waiting()), (0, 0));
}
