use tmux_status::tier::{color_for_percent, load_color, Color};

#[test]
fn tier_boundaries_are_low_inclusive() {
    assert_eq!(color_for_percent(0), Color::Green);
    assert_eq!(color_for_percent(24), Color::Green);
    assert_eq!(color_for_percent(25), Color::White);
    assert_eq!(color_for_percent(49), Color::White);
    assert_eq!(color_for_percent(50), Color::Blue);
    assert_eq!(color_for_percent(74), Color::Blue);
    assert_eq!(color_for_percent(75), Color::Cyan);
    assert_eq!(color_for_percent(99), Color::Cyan);
    assert_eq!(color_for_percent(100), Color::Yellow);
    assert_eq!(color_for_percent(199), Color::Yellow);
    assert_eq!(color_for_percent(200), Color::Magenta);
    assert_eq!(color_for_percent(399), Color::Magenta);
    assert_eq!(color_for_percent(400), Color::Red);
    assert_eq!(color_for_percent(u32::MAX), Color::Red);
}

#[test]
fn exactly_one_hundred_is_yellow_not_cyan() {
    assert_eq!(color_for_percent(100).name(), "yellow");
    assert_eq!(color_for_percent(99).name(), "cyan");
    assert_eq!(color_for_percent(24).name(), "green");
    assert_eq!(color_for_percent(25).name(), "white");
}

#[test]
fn color_names_are_the_markup_names() {
    assert_eq!(Color::Green.name(), "green");
    assert_eq!(Color::White.name(), "white");
    assert_eq!(Color::Blue.name(), "blue");
    assert_eq!(Color::Cyan.name(), "cyan");
    assert_eq!(Color::Yellow.name(), "yellow");
    assert_eq!(Color::Magenta.name(), "magenta");
    assert_eq!(Color::Red.name(), "red");
}

fn rank(color: Color) -> u32 {
    match color {
        Color::Green => 0,
        Color::White => 1,
        Color::Blue => 2,
        Color::Cyan => 3,
        Color::Yellow => 4,
        Color::Magenta => 5,
        Color::Red => 6,
    }
}

#[test]
fn tier_never_falls_as_percent_rises() {
    let mut last = 0;
    let mut seen = vec![false; 7];
    for percent in 0..1000u32 {
        let now = rank(color_for_percent(percent));
        assert!(now >= last, "tier fell at {}", percent);
        seen[now as usize] = true;
        last = now;
    }
    assert!(seen.iter().all(|s| *s));
}

#[test]
fn load_color_rounds_before_it_picks() {
    // 37.5 % rounds to 38: white; 49.5 % rounds to 50: blue.
    assert_eq!(load_color("1.50", 4), Some(Color::White));
    assert_eq!(load_color("1.98", 4), Some(Color::Blue));
    assert_eq!(load_color("1.97", 4), Some(Color::White));
    // 24.5 % rounds to 25: white; 24.49 % rounds to 24: green.
    assert_eq!(load_color("0.245", 1), Some(Color::White));
    assert_eq!(load_color("0.2449", 1), Some(Color::Green));
    // 99.5 % rounds to 100: yellow; 99.49 % rounds to 99: cyan.
    assert_eq!(load_color("0.995", 1), Some(Color::Yellow));
    assert_eq!(load_color("0.9949", 1), Some(Color::Cyan));
    assert_eq!(load_color("8.00", 2), Some(Color::Red));
    assert_eq!(load_color("7.98", 2), Some(Color::Magenta));
    assert_eq!(load_color("0.00", 1), Some(Color::Green));
}

#[test]
fn load_color_rejects_what_is_no_number() {
    assert_eq!(load_color("", 1), None);
    assert_eq!(load_color("high", 1), None);
    assert_eq!(load_color("1.5 ", 1), None);
}

#[test]
fn load_color_never_falls_as_load_per_cpu_rises() {
    // Loads in hundredths on 1 to 8 CPUs, compared by cross-multiplication.
    let loads = [0u32, 1, 12, 24, 25, 49, 50, 99, 100, 150, 199, 200, 399, 400, 800, 1600, 3200];
    for a in loads {
        for ca in 1..=8usize {
            for b in loads {
                for cb in 1..=8usize {
                    if (a as usize) * cb <= (b as usize) * ca {
                        let fa = format!("{}.{:02}", a / 100, a % 100);
                        let fb = format!("{}.{:02}", b / 100, b % 100);
                        let ta = rank(load_color(&fa, ca).unwrap());
                        let tb = rank(load_color(&fb, cb).unwrap());
                        assert!(ta <= tb, "{} on {} against {} on {}", fa, ca, fb, cb);
                    }
                }
            }
        }
    }
}
