use ampfuzz::cond_stmt::CondStmt;
use ampfuzz::depot::qpriority::QPriority;
use ampfuzz::fuzz_loop::{plan_round, Round};
use ampfuzz::fuzz_type::FuzzType;
use ampfuzz::search::amp::AmpFuzz;
use ampfuzz::search::handler::SearchHandler;

#[test]
fn amp_strategy_replays_every_shorter_prefix() {
    let handler = SearchHandler::new(CondStmt::get_amp_cond(0), vec![1, 2, 3]);
    let mut amp = AmpFuzz::new(handler);
    assert_eq!(amp.run(), Some(vec![1, 2]));
    amp.cond_mut().is_desirable = false;
    assert_eq!(amp.run(), Some(vec![1]));
    assert_eq!(amp.run(), Some(vec![]));
    assert_eq!(amp.run(), None);
    let handler = amp.into_handler();
    assert!(handler.cond.is_done());
    assert!(!handler.cond.is_desirable);
    assert_eq!(handler.buf, vec![1, 2, 3]);
}

#[test]
fn amp_strategy_on_an_empty_input_finishes_at_once() {
    let mut amp = AmpFuzz::new(SearchHandler::new(CondStmt::get_amp_cond(1), vec![]));
    assert_eq!(amp.run(), None);
    assert!(amp.into_handler().cond.is_done());
}

#[test]
fn a_round_is_planned_from_the_entry() {
    assert!(matches!(plan_round(None), Round::Stop));
    assert!(matches!(plan_round(Some((CondStmt::get_amp_cond(1), QPriority::done()))), Round::Stop));
    let mut done = CondStmt::get_amp_cond(1);
    done.mark_as_done();
    assert!(matches!(plan_round(Some((done, QPriority::init(0)))), Round::Retire(_)));
    match plan_round(Some((CondStmt::get_amp_cond(1), QPriority::init(0)))) {
        Round::Fuzz(cond, fuzz_type) => {
            assert_eq!(cond.fuzz_times, 1);
            assert_eq!(fuzz_type, FuzzType::AmpFuzz);
        }
        _ => panic!("the condition is to be fuzzed"),
    }
}
