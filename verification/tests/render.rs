use promptress::prompt::push_decimal;
use promptress::{Config, Prompt, Style};

fn fresh() -> Prompt {
    Prompt::new(Config::default())
}

#[test]
fn nothing_is_drawn_at_first() {
    let p = fresh();
    assert_eq!(p.output(), "");
    assert_eq!(p.into_output(), "");
}

#[test]
fn finish_without_a_chip_draws_nothing() {
    let mut p = fresh();
    p.finish();
    assert_eq!(p.output(), "");
}

#[test]
fn the_first_chip_starts_with_its_paint_and_a_space() {
    let mut p = fresh();
    p.new_part(0);
    assert_eq!(p.output(), "\x01\x1b[0;40m\x02 ");
}

#[test]
fn finish_behind_a_chip_draws_a_space_and_a_reset() {
    let mut p = fresh();
    p.new_part(0);
    p.finish();
    assert_eq!(p.output(), "\x01\x1b[0;40m\x02  \x01\x1b[0m\x02");
}

#[test]
fn a_chip_on_the_same_background_starts_with_the_thin_arrow() {
    let mut p = fresh();
    p.new_part(15);
    p.new_part(15);
    assert_eq!(
        p.output(),
        "\x01\x1b[0;107m\x02 \x01\x1b[0;107;30m\x02 \u{e0b1} "
    );
}

#[test]
fn a_chip_on_another_background_starts_with_the_arrow() {
    let mut p = fresh();
    p.new_part(15);
    p.new_part(250);
    assert_eq!(
        p.output(),
        "\x01\x1b[0;107m\x02  \x01\x1b[0;97;48;5;250m\x02\u{e0b0}\x01\x1b[0;48;5;250m\x02 "
    );
}

#[test]
fn three_chips_in_a_row() {
    let mut p = fresh();
    p.new_part(1);
    p.emit_text("a");
    p.new_part(1);
    p.emit_text("b");
    p.new_part(2);
    p.emit_text("c");
    p.finish();
    assert_eq!(
        p.output(),
        "\x01\x1b[0;41m\x02 a\x01\x1b[0;41;30m\x02 \u{e0b1} b \x01\x1b[0;31;42m\x02\u{e0b0}\x01\x1b[0;42m\x02 c \x01\x1b[0m\x02"
    );
}

#[test]
fn a_style_keeps_the_background_of_the_chip() {
    let mut p = fresh();
    p.new_part(7);
    let drawn = p.output().len();
    p.style(Style::bold(9));
    assert_eq!(&p.output()[drawn..], "\x01\x1b[0;47;91;1m\x02");
}

#[test]
fn a_style_before_any_chip_has_no_background() {
    let mut p = fresh();
    p.style(Style::color(0));
    assert_eq!(p.output(), "\x01\x1b[0;30m\x02");
}

#[test]
fn the_attributes_come_in_a_fixed_order() {
    let mut p = fresh();
    p.new_part(16);
    let drawn = p.output().len();
    p.style(Style {
        color: 200,
        bold: true,
        italic: true,
        underline: true,
        blink: true,
        strike: true,
    });
    assert_eq!(
        &p.output()[drawn..],
        "\x01\x1b[0;48;5;16;38;5;200;1;3;4;5;9m\x02"
    );
}

#[test]
fn each_attribute_has_its_own_code() {
    let plain = Style::color(1);
    let cases = [
        (Style { bold: true, ..plain }, ";1"),
        (Style { italic: true, ..plain }, ";3"),
        (Style { underline: true, ..plain }, ";4"),
        (Style { blink: true, ..plain }, ";5"),
        (Style { strike: true, ..plain }, ";9"),
        (Style { italic: true, strike: true, ..plain }, ";3;9"),
        (plain, ""),
    ];
    for (style, codes) in cases {
        let mut p = fresh();
        p.style(style);
        assert_eq!(p.output(), format!("\x01\x1b[0;31{}m\x02", codes));
    }
}

#[test]
fn the_foreground_has_three_ranges() {
    let cases = [
        (0, ";30"),
        (1, ";31"),
        (7, ";37"),
        (8, ";90"),
        (9, ";91"),
        (15, ";97"),
        (16, ";38;5;16"),
        (99, ";38;5;99"),
        (100, ";38;5;100"),
        (109, ";38;5;109"),
        (255, ";38;5;255"),
    ];
    for (color, code) in cases {
        let mut p = fresh();
        p.style(Style::color(color));
        assert_eq!(p.output(), format!("\x01\x1b[0{}m\x02", code));
    }
}

#[test]
fn the_background_has_three_ranges() {
    let cases = [
        (0, ";40"),
        (7, ";47"),
        (8, ";100"),
        (10, ";102"),
        (15, ";107"),
        (16, ";48;5;16"),
        (200, ";48;5;200"),
        (255, ";48;5;255"),
    ];
    for (color, code) in cases {
        let mut p = fresh();
        p.new_part(color);
        assert_eq!(p.output(), format!("\x01\x1b[0{}m\x02 ", code));
    }
}

#[test]
fn every_number_is_drawn_as_the_standard_library_formats_it() {
    for n in 0..=255u8 {
        let mut out = String::from("x");
        push_decimal(&mut out, n);
        assert_eq!(out, format!("x{}", n));
    }
}

#[test]
fn text_is_drawn_as_it_is() {
    let mut p = fresh();
    p.emit_text("a\u{e9}");
    p.emit_text("");
    p.emit_text("b");
    assert_eq!(p.output(), "a\u{e9}b");
}

#[test]
fn color_and_bold_set_nothing_else() {
    let style = Style::color(3);
    assert_eq!(style.color, 3);
    assert!(!style.bold && !style.italic && !style.underline && !style.blink && !style.strike);
    let style = Style::bold(4);
    assert_eq!(style.color, 4);
    assert!(style.bold);
    assert!(!style.italic && !style.underline && !style.blink && !style.strike);
    let style = Style::default();
    assert_eq!(style.color, 0);
    assert!(!style.bold && !style.italic && !style.underline && !style.blink && !style.strike);
}

#[test]
fn the_defaults_of_the_configuration() {
    let conf = Config::default();
    assert_eq!(conf.dollar.bg, 0);
    assert_eq!(conf.dollar.user_sty.color, 15);
    assert!(!conf.dollar.user_sty.bold);
    assert_eq!(conf.dollar.root_sty.color, 9);
    assert!(conf.dollar.root_sty.bold);
    assert_eq!(conf.exit_code.success_bg, 0);
    assert_eq!(conf.exit_code.success_sty.color, 10);
    assert!(conf.exit_code.success_sty.bold);
    assert_eq!(conf.exit_code.failure_bg, 0);
    assert_eq!(conf.exit_code.failure_sty.color, 9);
    assert!(conf.exit_code.failure_sty.bold);
    let dir = &conf.work_dir;
    assert_eq!(dir.comp_trun, "...");
    assert_eq!(dir.comp_max_len, 16);
    assert_eq!(dir.path_max_len, 64);
    assert_eq!(dir.path_trun, "...");
    assert_eq!(dir.path_trun_bg, 15);
    assert_eq!(dir.path_trun_sty.color, 0);
    assert_eq!(dir.dir_bg, 15);
    assert_eq!(dir.dir_sty.color, 0);
    assert_eq!(dir.base_bg, 15);
    assert_eq!(dir.base_sty.color, 0);
    assert_eq!(dir.aliases.len(), 0);
    let git = &dir.git;
    assert!(!git.enable);
    assert_eq!(git.bg, 250);
    assert_eq!(git.sty.color, 0);
    assert_eq!(git.prefix, "Git:");
    assert_eq!(git.separator, "|");
    assert!(!git.status);
    assert_eq!(git.ahead, "\u{2191}");
    assert_eq!(git.ahead_sty.color, 19);
    assert_eq!(git.behind, "\u{2193}");
    assert_eq!(git.behind_sty.color, 19);
    assert_eq!(git.conflict, "!");
    assert_eq!(git.conflict_sty.color, 0);
    assert_eq!(git.index, "\u{2022}");
    assert_eq!(git.index_sty.color, 28);
    assert_eq!(git.wt, "+");
    assert_eq!(git.wt_sty.color, 88);
    assert_eq!(git.untracked, "-");
    assert_eq!(git.untracked_sty.color, 88);
}
