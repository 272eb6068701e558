use llamachat::design::{gauge, meter, rank_word, spark, Style};

#[test]
fn styles_switch_off_without_colour() {
    let off = Style { on: false };
    assert_eq!(off.accent("x"), "x");
    assert_eq!(off.bold("x"), "x");
    assert_eq!(off.badge((1, 2, 3), (4, 5, 6), "BEST", (0, 0, 0)), "[BEST]");
    assert_eq!(off.band((0, 0, 0), "ab", 2).len(), 84);
    assert_eq!(off.label("models"), "M O D E L S");
    let on = Style { on: true };
    assert_eq!(on.accent("x"), "\x1b[38;2;77;124;255mx\x1b[0m");
    assert_eq!(on.bold("x"), "\x1b[1mx\x1b[22m");
    assert_eq!(on.fg((1, 2, 3), "y"), "\x1b[38;2;1;2;3my\x1b[39m");
}

#[test]
fn meters_gauges_and_sparklines() {
    let off = Style { on: false };
    assert_eq!(rank_word(0), "won't run");
    assert_eq!(rank_word(9), "blazing");
    assert_eq!(meter(&off, 2), "▰▰▰▱▱");
    assert_eq!(gauge(&off, 19, 12), "██▍░░░░░░░░░");
    assert_eq!(gauge(&off, 96, 12), "████████████");
    assert_eq!(gauge(&off, 0, 3), "░░░");
    assert_eq!(spark(&off, &vec![0, 3, 7, 9]), "▁▄██");
}
