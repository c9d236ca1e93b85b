use pathtracer::options::{setting, Options, OptionsOf, Setting};
use pathtracer::{BOUNCE_AMOUNT, IMG_HEIGHT, IMG_WIDTH, SAMPLES};

fn chars(s: &str) -> Vec<char> {
    s.chars().collect()
}

#[test]
fn the_constants_of_a_render() {
    assert_eq!(IMG_WIDTH, 800);
    assert_eq!(IMG_HEIGHT, 450);
    assert_eq!(IMG_HEIGHT, (IMG_WIDTH as f32 / (16.0f32 / 9.0f32)) as usize);
    assert_eq!(BOUNCE_AMOUNT, 10);
    assert_eq!(SAMPLES, 100);
}

#[test]
fn default_options_are_a_full_render() {
    assert_eq!(
        Options::new(),
        OptionsOf { fast: false, samples: 100, max_bounce: 10, output: chars("out") }
    );
}

#[test]
fn a_flag_is_a_dash_and_a_letter() {
    assert_eq!(setting("-f"), Some(Setting::Fast));
    assert_eq!(setting("-fast"), Some(Setting::Fast));
    assert_eq!(setting("-s25"), Some(Setting::Samples(25)));
    assert_eq!(setting("-s+25"), Some(Setting::Samples(25)));
    assert_eq!(setting("-b0"), Some(Setting::Bounces(0)));
    assert_eq!(setting("-b50"), Some(Setting::Bounces(50)));
    assert_eq!(setting("-@cornell"), Some(Setting::Output(chars("cornell"))));
    assert_eq!(setting("-@"), Some(Setting::Output(chars(""))));
    assert_eq!(setting("-@-f"), Some(Setting::Output(chars("-f"))));
    assert_eq!(setting("-@späte stunde.png"), Some(Setting::Output(chars("späte stunde.png"))));
}

#[test]
fn a_number_must_follow_its_flag_at_once() {
    assert_eq!(setting("-s"), None);
    assert_eq!(setting("-b"), None);
    assert_eq!(setting("-s 5"), None);
    assert_eq!(setting("-s5 "), None);
    assert_eq!(setting("-b-1"), None);
    assert_eq!(setting("-b1.5"), None);
    assert_eq!(setting("-sten"), None);
    assert_eq!(setting("-s99999999999999999999999999"), None);
}

#[test]
fn other_arguments_are_unknown() {
    assert_eq!(setting(""), Some(Setting::Unknown));
    assert_eq!(setting("-"), Some(Setting::Unknown));
    assert_eq!(setting("f"), Some(Setting::Unknown));
    assert_eq!(setting("--fast"), Some(Setting::Unknown));
    assert_eq!(setting("-x"), Some(Setting::Unknown));
    assert_eq!(setting("-F"), Some(Setting::Unknown));
    assert_eq!(setting("s10"), Some(Setting::Unknown));
    assert_eq!(setting(" -f"), Some(Setting::Unknown));
    assert_eq!(setting("-é"), Some(Setting::Unknown));
    assert_eq!(setting("é-f"), Some(Setting::Unknown));
}

#[test]
fn flags_are_read_as_the_first_two_bytes() {
    let args = ["-f", "-fx", "-s1", "-sx", "-b2", "-@", "-@a", "", "-", "x", "-é", "é-", "-ß9", "--"];
    for arg in args.iter() {
        let expected = match arg.get(..2) {
            Some("-f") => Some(Setting::Fast),
            Some("-s") => arg.get(2..).unwrap().parse::<usize>().ok().map(Setting::Samples),
            Some("-b") => arg.get(2..).unwrap().parse::<usize>().ok().map(Setting::Bounces),
            Some("-@") => Some(Setting::Output(chars(arg.get(2..).unwrap()))),
            _ => Some(Setting::Unknown),
        };
        assert_eq!(setting(arg), expected, "{:?}", arg);
    }
}

#[test]
fn settings_change_one_option_each() {
    let options = Options::new().with(Setting::Fast);
    assert_eq!(
        options,
        OptionsOf { fast: true, samples: 100, max_bounce: 10, output: chars("out") }
    );
    let options = options.with(Setting::Samples(4));
    assert_eq!(options, OptionsOf { fast: true, samples: 4, max_bounce: 10, output: chars("out") });
    let options = options.with(Setting::Bounces(2));
    assert_eq!(options, OptionsOf { fast: true, samples: 4, max_bounce: 2, output: chars("out") });
    let options = options.with(Setting::Output(chars("x.png")));
    assert_eq!(options, OptionsOf { fast: true, samples: 4, max_bounce: 2, output: chars("x.png") });
    let options = options.with(Setting::Unknown);
    assert_eq!(options, OptionsOf { fast: true, samples: 4, max_bounce: 2, output: chars("x.png") });
}

#[test]
fn a_later_setting_replaces_an_earlier_one() {
    let options = Options::new()
        .with(Setting::Samples(1))
        .with(Setting::Output(chars("a")))
        .with(Setting::Samples(2))
        .with(Setting::Output(chars("b")));
    assert_eq!(options, OptionsOf { fast: false, samples: 2, max_bounce: 10, output: chars("b") });
}
