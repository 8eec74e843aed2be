use c0front::ctrl::LoopCtrl;
use c0front::pos::Pos;
use c0front::pos::Span;

#[test]
fn pos_new_and_zero() {
    let p = Pos::new(3, 7, 42);
    assert_eq!(p.ln, 3);
    assert_eq!(p.pos, 7);
    assert_eq!(p.index, 42);
    let z = Pos::zero();
    assert_eq!((z.ln, z.pos, z.index), (0, 0, 0));
}

#[test]
fn pos_advances() {
    let p = Pos::new(1, 4, 10);
    let b = p.bump();
    assert_eq!((b.ln, b.pos, b.index), (1, 4, 11));
    let i = p.inc();
    assert_eq!((i.ln, i.pos, i.index), (1, 5, 11));
    let l = p.lf();
    assert_eq!((l.ln, l.pos, l.index), (2, 0, 11));
}

#[test]
fn pos_map_inc_signed_deltas() {
    let p = Pos::new(5, 6, 50);
    let q = p.map_inc(-2, 1, 3);
    assert_eq!((q.ln, q.pos, q.index), (6, 4, 53));
    let r = p.map_inc(0, -5, -50);
    assert_eq!((r.ln, r.pos, r.index), (0, 6, 0));
}

#[test]
fn pos_in_place_advances() {
    let mut p = Pos::zero();
    p.inc_self();
    p.inc_self();
    p.lf_self();
    p.bump_self();
    assert_eq!((p.ln, p.pos, p.index), (1, 0, 4));
}

#[test]
fn span_from_and_point() {
    let s = Span::from(Pos::new(0, 0, 2), Pos::new(0, 4, 6));
    assert_eq!(s.start.index, 2);
    assert_eq!(s.end.index, 6);
    let p = Span::point(Pos::new(1, 1, 9));
    assert_eq!(p.start, p.end);
    let z = Span::zero();
    assert_eq!(z.start.index, 0);
    assert_eq!(z.end.index, 0);
}

fn span_of(a: usize, b: usize) -> Span {
    Span::from(Pos::new(0, a, a), Pos::new(0, b, b))
}

#[test]
fn span_union_fills_the_gap() {
    let a = span_of(0, 2);
    let b = span_of(4, 8);
    let u = a.union(b);
    assert_eq!(u.start.index, 0);
    assert_eq!(u.end.index, 8);
    let v = b.union(a);
    assert_eq!(u, v);
}

#[test]
fn span_union_of_nested_spans() {
    let a = span_of(1, 9);
    let b = span_of(3, 4);
    assert_eq!(a.union(b), a);
    assert_eq!(b.union(a), a);
}

#[test]
fn loop_ctrl_queries() {
    let s: LoopCtrl<u32> = LoopCtrl::Stop(7);
    assert!(!s.is_continue());
    assert_eq!(s.unwrap(), 7);
    let c: LoopCtrl<u32> = LoopCtrl::Continue;
    assert!(c.is_continue());
}

#[test]
fn loop_ctrl_conversions() {
    assert!(matches!(LoopCtrl::from_option(Some(3u8)), LoopCtrl::Stop(3)));
    assert!(matches!(LoopCtrl::from_option(None::<u8>), LoopCtrl::Continue));
    let s: LoopCtrl<&str> = LoopCtrl::Stop("done");
    assert_eq!(s.into_result(), Err("done"));
    let c: LoopCtrl<&str> = LoopCtrl::Continue;
    assert_eq!(c.into_result(), Ok(()));
}

#[test]
fn loop_while_stops_on_stop() {
    let r = c0front::ctrl::loop_while(|| LoopCtrl::Stop(42u64), 10);
    assert_eq!(r, Some(42));
}

#[test]
fn loop_while_runs_out_of_fuel() {
    let r: Option<u64> = c0front::ctrl::loop_while(|| LoopCtrl::Continue, 5);
    assert_eq!(r, None);
}

#[test]
fn loop_while_check_passes_errors_through() {
    let r: Result<Option<u32>, &str> = c0front::ctrl::loop_while_check(|| Err("boom"), 5);
    assert_eq!(r, Err("boom"));
    let ok: Result<Option<u32>, &str> = c0front::ctrl::loop_while_check(|| Ok(LoopCtrl::Stop(9)), 5);
    assert_eq!(ok, Ok(Some(9)));
}

#[test]
fn result_round_trips_through_loop_ctrl() {
    let stop: LoopCtrl<&str> = LoopCtrl::from_result(Err("stop"));
    assert!(matches!(stop, LoopCtrl::Stop("stop")));
    let go: LoopCtrl<&str> = LoopCtrl::from_result(Ok(()));
    assert!(go.is_continue());
    assert_eq!(LoopCtrl::from_result(Err(7u8)).into_result(), Err(7u8));
    assert_eq!(LoopCtrl::<u8>::from_result(Ok(())).into_result(), Ok(()));
}

#[test]
fn positions_are_ordered_by_offset() {
    let a = Pos::new(9, 9, 1);
    let b = Pos::new(0, 0, 2);
    assert!(a < b);
    assert!(b > a);
    let c = Pos::new(5, 5, 2);
    assert!(!(b < c) && !(c < b));
}
