use jito_miner::miner::Miner;
use jito_miner::tips::{subscribe_jito_tips, JitoTips, TipAction, TipEvent};

fn tips(p25: u64) -> JitoTips {
    JitoTips { p25_landed: p25, p50_landed: 2, p75_landed: 30, p95_landed: 400, p99_landed: 5000 }
}

#[test]
fn tips_are_written_in_one_line() {
    assert_eq!(tips(1).text(), "tips(p25=1,p50=2,p75=30,p95=400,p99=5000)");
    assert_eq!(JitoTips::default().text(), "tips(p25=0,p50=0,p75=0,p95=0,p99=0)");
}

#[test]
fn percentiles_are_read_off() {
    assert_eq!(tips(11).p25(), 11);
    assert_eq!(tips(11).p50(), 2);
}

#[test]
fn tip_is_the_fee_without_a_cap() {
    let miner = Miner::new(100, 0, None);
    assert_eq!(miner.tip(&tips(0)), Some(100));
    assert_eq!(miner.tip(&tips(999)), Some(100));
    assert_eq!(miner.tip(&tips(u64::MAX)), Some(100));
}

#[test]
fn tip_follows_the_market_up_to_the_cap() {
    let miner = Miner::new(100, 1000, None);
    assert_eq!(miner.tip(&tips(1)), Some(101));
    assert_eq!(miner.tip(&tips(899)), Some(999));
    assert_eq!(miner.tip(&tips(900)), Some(1000));
    assert_eq!(miner.tip(&tips(5000)), Some(1000));
}

#[test]
fn tip_is_the_fee_up_to_the_cap_without_a_market() {
    assert_eq!(Miner::new(100, 1000, None).tip(&tips(0)), Some(100));
    assert_eq!(Miner::new(100, 100, None).tip(&tips(0)), Some(100));
    assert_eq!(Miner::new(100, 10, None).tip(&tips(0)), Some(10));
    assert_eq!(Miner::new(10, 5, None).tip(&tips(0)), Some(5));
    assert_eq!(Miner::new(u64::MAX, 5, None).tip(&tips(0)), Some(5));
}

#[test]
fn no_tip_exceeds_the_cap() {
    for fee in [0u64, 1, 50, 1000] {
        for cap in [1u64, 49, 50, 2000] {
            for p25 in [0u64, 1, 50, 5000] {
                assert!(Miner::new(fee, cap, None).tip(&tips(p25)).unwrap() <= cap);
            }
        }
    }
}

#[test]
fn there_is_no_tip_beyond_the_largest_number() {
    let miner = Miner::new(1, 10, None);
    assert_eq!(miner.tip(&tips(u64::MAX)), None);
    assert_eq!(miner.tip(&tips(u64::MAX - 1)), Some(10));
}

#[test]
fn only_a_list_with_entries_changes_the_tips() {
    let mut current = JitoTips::default();
    assert_eq!(subscribe_jito_tips(&mut current, TipEvent::Connected), TipAction::Read);
    assert_eq!(
        subscribe_jito_tips(&mut current, TipEvent::Reported(vec![tips(7), tips(8)])),
        TipAction::Read
    );
    assert_eq!(current, tips(7));
    assert_eq!(subscribe_jito_tips(&mut current, TipEvent::Reported(vec![])), TipAction::Read);
    assert_eq!(subscribe_jito_tips(&mut current, TipEvent::Unreadable), TipAction::Read);
    assert_eq!(subscribe_jito_tips(&mut current, TipEvent::ReadFailed), TipAction::Read);
    assert_eq!(current, tips(7));
}

#[test]
fn a_lost_stream_is_connected_again_and_keeps_the_tips() {
    let mut current = tips(9);
    assert_eq!(
        subscribe_jito_tips(&mut current, TipEvent::Closed),
        TipAction::ReconnectAfter(5)
    );
    assert_eq!(
        subscribe_jito_tips(&mut current, TipEvent::ConnectFailed),
        TipAction::ReconnectAfter(5)
    );
    assert_eq!(current, tips(9));
}
