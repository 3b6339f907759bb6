use midi_hltas::{format_line, Action, ActionTable, EmitInfo, Record, Switches};

fn line(a: Action) -> String {
    let mut s = Switches::new();
    s.format_bulk("0.25", 1, &a)
}

#[test]
fn wait_line_has_empty_command() {
    assert_eq!(line(Action::Nothing), "----------|------|------|0.25|-|-|1|\n");
}

#[test]
fn plain_command_lines() {
    assert_eq!(line(Action::Flashlight), "----------|------|------|0.25|-|-|1|impulse 100\n");
    assert_eq!(line(Action::Nice), "----------|------|------|0.25|-|-|1|speak player/sprayer\n");
    assert_eq!(
        line(Action::Nice2),
        "----------|------|------|0.25|-|-|1|speak \"common/bodysplat(v30)\"\n"
    );
    assert_eq!(
        line(Action::Nice3),
        "----------|------|------|0.25|-|-|1|speak \"common/wpn_moveselect(v30)\"\n"
    );
    assert_eq!(line(Action::Stopsound), "----------|------|------|0.25|-|-|1|stopsound\n");
    assert_eq!(
        line(Action::Attack1),
        "----------|------|------|0.25|-|-|1|+attack; wait; -attack\n"
    );
    assert_eq!(
        line(Action::WpnMoveSelect),
        "----------|------|------|0.25|-|-|1|speak \"common/wpn_moveselect\"\n"
    );
}

#[test]
fn slot_lines() {
    assert_eq!(line(Action::SwitchScroll(3)), "----------|------|------|0.25|-|-|1|slot3\n");
    assert_eq!(line(Action::SwitchScroll(0)), "----------|------|------|0.25|-|-|1|slot0\n");
    assert_eq!(line(Action::SwitchScroll(9)), "----------|------|------|0.25|-|-|1|\n");
}

#[test]
fn flag_field_lines() {
    assert_eq!(line(Action::Ducktap), "-----d----|------|------|0.25|-|-|1\n");
    assert_eq!(line(Action::Use), "----------|------|--u---|0.25|-|-|1\n");
}

#[test]
fn emit_lines() {
    let info = EmitInfo {
        sound: "common/bodysplat.wav".to_string(),
        channel: 7,
        volume: "0.4".to_string(),
        from: 68,
    };
    assert_eq!(
        line(Action::Emit(info.clone())),
        "----------|------|------|0.25|-|-|1|bxt_emit_sound \"common/bodysplat.wav 7 0.4 68 0 0.8 0 100\"\n"
    );
    let neg = EmitInfo { channel: -3, ..info };
    assert_eq!(
        line(Action::EmitDynamic(neg)),
        "----------|------|------|0.25|-|-|1|bxt_emit_sound_dynamic \"common/bodysplat.wav -3 0.4 68 0 0.8 0 100\"\n"
    );
}

#[test]
fn repeat_count_is_written_in_decimal() {
    let s = Switches::new();
    assert_eq!(format_line(&Action::Nothing, "1", 1234, s), "----------|------|------|1|-|-|1234|\n");
    assert_eq!(format_line(&Action::Use, "1", 0, s), "----------|------|--u---|1|-|-|0\n");
    assert_eq!(
        format_line(&Action::Nothing, "1", u32::MAX, s),
        "----------|------|------|1|-|-|4294967295|\n"
    );
}

#[test]
fn group_switch_alternates() {
    let mut s = Switches::new();
    let a = Action::SwitchGroup;
    assert_eq!(s.format_bulk("0", 1, &a), "----------|------|------|0|-|-|1|slot2\n");
    assert_eq!(s.format_bulk("0", 1, &a), "----------|------|------|0|-|-|1|slot1\n");
    assert_eq!(s.format_bulk("0", 1, &a), "----------|------|------|0|-|-|1|slot2\n");
    assert_eq!(s.toggle, 2);
}

#[test]
fn counter_counts_up() {
    let mut s = Switches::new();
    assert_eq!(s.format_bulk("0", 1, &Action::PauseFinder), "----------|------|------|0|-|-|1|echo 1\n");
    assert_eq!(s.format_bulk("0", 1, &Action::PauseFinder), "----------|------|------|0|-|-|1|echo 2\n");
    assert_eq!(s.counter, 2);
}

#[test]
fn table_renders_records() {
    let mut t = ActionTable::new(vec![Action::Nice, Action::SwitchGroup]);
    assert_eq!(t.render(Record::Pulse(0), "1e-12"), "----------|------|------|1e-12|-|-|1|speak player/sprayer\n");
    assert_eq!(t.render(Record::Pulse(1), "1e-12"), "----------|------|------|1e-12|-|-|1|slot2\n");
    assert_eq!(t.render(Record::Stop, "1e-12"), "----------|------|------|1e-12|-|-|1|stopsound\n");
    assert_eq!(t.render(Record::Marker, "1e-12"), "----------|------|------|1e-12|-|-|1|echo 1\n");
    assert_eq!(t.render(Record::Wait(7), "0.5"), "----------|------|------|0.5|-|-|1|\n");
    assert_eq!(t.render(Record::Pulse(5), "0.5"), "----------|------|------|0.5|-|-|1|\n");
}
