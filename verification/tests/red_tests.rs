use flocknet::network::{Packet, PacketId, Priority};
use flocknet::strategies::red::{AdaptiveRed, Red};
use flocknet::strategies::{Action, Strategy, PROB_SCALE};

const M: u128 = 1_000_000;

fn packet() -> Packet {
    Packet::new_at(PacketId::new(0), 1, 0, 1500, Priority::Normal, 1_700_000_000_000_000)
}

struct Lcg(u64);

impl Lcg {
    fn draw(&mut self) -> u32 {
        self.0 = self.0.wrapping_mul(6364136223846793005).wrapping_add(1442695040888963407);
        ((self.0 >> 33) % 1_000_000) as u32
    }
}

#[test]
fn red_thresholds_of_a_buffer_of_100() {
    let red = Red::new(100);
    assert_eq!(red.min_th, 30 * M);
    assert_eq!(red.max_th, 90 * M);
    assert_eq!(red.max_p, 100_000);
    assert_eq!(red.avg_queue, 0);
    assert_eq!(red.count, 0);
}

#[test]
fn red_lower_threshold_is_at_least_five_packets() {
    let red = Red::new(10);
    assert_eq!(red.min_th, 5 * M);
    assert_eq!(red.max_th, 9 * M);
    let tiny = Red::new(0);
    assert_eq!(tiny.min_th, 5 * M);
    assert_eq!(tiny.max_th, 0);
}

#[test]
fn moving_average_takes_a_fiftieth_of_the_sample() {
    let mut red = Red::new(100);
    assert_eq!(red.averaged(70), 1_400_000);
    red.update_at(70, 0, 0);
    assert_eq!(red.avg_queue, 1_400_000);
    red.update_at(70, 0, 0);
    assert_eq!(red.avg_queue, 2_772_000);
    red.update_at(70, 0, 0);
    assert_eq!(red.avg_queue, 4_116_560);
}

#[test]
fn red_band_base_probability_at_70_of_100() {
    let mut red = Red::new(100);
    red.avg_queue = 70 * M;
    assert_eq!(red.calc_probability(70 * M), 66_666);
}

#[test]
fn red_probability_outside_the_band() {
    let red = Red::new(100);
    assert_eq!(red.calc_probability(0), 0);
    assert_eq!(red.calc_probability(30 * M - 1), 0);
    assert_eq!(red.calc_probability(30 * M), 0);
    assert_eq!(red.calc_probability(90 * M), PROB_SCALE);
    assert_eq!(red.calc_probability(500 * M), PROB_SCALE);
}

#[test]
fn red_probability_grows_with_the_count_since_the_last_drop() {
    let mut red = Red::new(100);
    red.count = 5;
    assert_eq!(red.calc_probability(70 * M), 99_998);
    red.count = 14;
    assert_eq!(red.calc_probability(70 * M), 999_850);
    red.count = 15;
    assert_eq!(red.calc_probability(70 * M), PROB_SCALE);
    red.count = 16;
    assert_eq!(red.calc_probability(70 * M), PROB_SCALE);
    red.count = usize::MAX;
    assert_eq!(red.calc_probability(70 * M), PROB_SCALE);
}

#[test]
fn red_band_drop_fraction_over_1000_arrivals_at_70() {
    let mut red = Red::new(100);
    let mut draws = Lcg(1);
    let mut drops = 0u32;
    for _ in 0..1000 {
        if red.enqueue_at(&packet(), 70, 0, draws.draw()) == Action::Drop {
            drops += 1;
        }
    }
    // the base probability is 0.0667; spreading the drops over the packets
    // since the last one brings the fraction of drops up to twice that
    assert!(drops >= 66, "{drops}");
    assert!(drops <= 134, "{drops}");
    assert_eq!(drops, 127);
}

#[test]
fn red_never_drops_while_the_queue_stays_below_the_lower_threshold() {
    let mut red = Red::new(100);
    for _ in 0..2000 {
        assert_eq!(red.enqueue_at(&packet(), 29, 0, 0), Action::Accept);
        assert!(red.avg_queue < red.min_th);
    }
    assert_eq!(red.count, 2000);
}

#[test]
fn red_always_drops_once_the_average_is_at_the_upper_threshold() {
    let mut red = Red::new(100);
    red.avg_queue = 95 * M;
    for _ in 0..100 {
        assert_eq!(red.enqueue_at(&packet(), 95, 0, PROB_SCALE - 1), Action::Drop);
        assert!(red.avg_queue >= red.max_th);
        assert_eq!(red.count, 0);
    }
}

#[test]
fn red_drop_rate_goes_to_one_under_a_full_queue() {
    let mut red = Red::new(100);
    for _ in 0..113 {
        red.enqueue_at(&packet(), 100, 0, PROB_SCALE - 1);
    }
    assert!(red.avg_queue < red.max_th);
    for _ in 0..200 {
        assert_eq!(red.enqueue_at(&packet(), 100, 0, PROB_SCALE - 1), Action::Drop);
    }
}

#[test]
fn red_drop_restarts_the_count_and_accept_raises_it() {
    let mut red = Red::new(100);
    red.avg_queue = 70 * M;
    assert_eq!(red.enqueue_at(&packet(), 70, 0, 66_666), Action::Accept);
    assert_eq!(red.count, 1);
    assert_eq!(red.enqueue_at(&packet(), 70, 0, 0), Action::Drop);
    assert_eq!(red.count, 0);
}

#[test]
fn red_reset_clears_average_and_count() {
    let mut red = Red::new(100);
    for _ in 0..10 {
        red.enqueue_at(&packet(), 50, 0, 0);
    }
    assert!(red.avg_queue > 0);
    red.reset_at(0);
    assert_eq!(red, Red::new(100));
    assert_eq!(red.name(), "RED");
    assert_eq!(*red.clone_box_at(0), red);
}

#[test]
fn red_with_a_band_upside_down_never_divides_by_zero() {
    let mut red = Red::new(5);
    assert!(red.min_th > red.max_th);
    for q in 0..20usize {
        red.enqueue_at(&packet(), q, 0, 3);
    }
    assert_eq!(red.calc_probability(4_600_000), 0);
    assert_eq!(red.calc_probability(5_000_000), PROB_SCALE);
}

#[test]
fn adaptive_red_targets_the_middle_of_the_band() {
    let ared = AdaptiveRed::new_at(100, 7);
    assert_eq!(ared.target, 60 * M);
    assert_eq!(ared.last_update, 7);
    assert_eq!(ared.red, Red::new(100));
    assert_eq!(ared.name(), "Adaptive-RED");
}

#[test]
fn adaptive_red_raises_max_p_below_the_target_every_half_second() {
    let mut ared = AdaptiveRed::new_at(100, 0);
    ared.update_at(10, 0, 499_999);
    assert_eq!(ared.red.max_p, 100_000);
    assert_eq!(ared.last_update, 0);
    ared.update_at(10, 0, 500_000);
    assert_eq!(ared.red.max_p, 110_000);
    assert_eq!(ared.last_update, 500_000);
    ared.update_at(10, 0, 999_999);
    assert_eq!(ared.red.max_p, 110_000);
}

#[test]
fn adaptive_red_step_is_a_quarter_of_a_small_max_p() {
    let mut ared = AdaptiveRed::new_at(100, 0);
    ared.red.max_p = 20_000;
    ared.update_at(10, 0, 500_000);
    assert_eq!(ared.red.max_p, 25_000);
}

#[test]
fn adaptive_red_lowers_max_p_above_the_target() {
    let mut ared = AdaptiveRed::new_at(100, 0);
    ared.red.avg_queue = 80 * M;
    ared.update_at(80, 0, 500_000);
    assert_eq!(ared.red.max_p, 90_000);
    ared.red.max_p = 10_000;
    ared.update_at(80, 0, 1_000_000);
    assert_eq!(ared.red.max_p, 10_000);
}

#[test]
fn adaptive_red_stops_raising_at_one_half() {
    let mut ared = AdaptiveRed::new_at(100, 0);
    ared.red.max_p = 500_000;
    ared.update_at(10, 0, 500_000);
    assert_eq!(ared.red.max_p, 500_000);
    ared.red.max_p = 499_999;
    ared.update_at(10, 0, 1_000_000);
    assert_eq!(ared.red.max_p, 509_999);
}

#[test]
fn adaptive_red_decides_as_its_red() {
    let mut ared = AdaptiveRed::new_at(100, 0);
    let mut red = Red::new(100);
    let mut draws = Lcg(9);
    for i in 0..500usize {
        let d = draws.draw();
        assert_eq!(
            ared.enqueue_at(&packet(), 40 + i % 50, 0, d),
            red.enqueue_at(&packet(), 40 + i % 50, 0, d)
        );
    }
    ared.dequeue_at(3, 0);
    assert_eq!(ared.red, red);
}

#[test]
fn adaptive_red_reset_restores_max_p() {
    let mut ared = AdaptiveRed::new_at(100, 0);
    ared.update_at(10, 0, 500_000);
    ared.update_at(10, 0, 1_000_000);
    assert_eq!(ared.red.max_p, 120_000);
    ared.reset_at(2_000_000);
    assert_eq!(ared, AdaptiveRed::new_at(100, 2_000_000));
}
