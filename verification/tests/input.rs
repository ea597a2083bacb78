use sketchover::config::{Args, Command, Config};
use sketchover::keymap::{modifier_names, to_modifier, KeyMap, Modifiers};
use sketchover::mousemap::{scroll, Mouse, MouseEvent, MouseMap};
use sketchover::pause::{
    conversion, swap_red_blue, CaptureFrameState, CaptureStep, Conversion, Format, FrameError,
    FrameEvent, FrameFormat, FrameState,
};
use sketchover::tools::DrawKind;

fn held(ctrl: bool, alt: bool, shift: bool, logo: bool) -> Modifiers {
    let mut m = Modifiers::none();
    m.ctrl = ctrl;
    m.alt = alt;
    m.shift = shift;
    m.logo = logo;
    m
}

fn names(list: &[&str]) -> Vec<String> {
    list.iter().map(|s| s.to_string()).collect()
}

#[test]
fn named_buttons_have_their_codes() {
    let named = [
        (MouseEvent::BtnLeft, 0x110),
        (MouseEvent::BtnRight, 0x111),
        (MouseEvent::BtnMiddle, 0x112),
        (MouseEvent::BtnSide, 0x113),
        (MouseEvent::BtnExtra, 0x114),
        (MouseEvent::BtnForward, 0x115),
        (MouseEvent::BtnBack, 0x116),
        (MouseEvent::BtnTask, 0x117),
    ];
    for (button, code) in named {
        assert_eq!(button.code(), code);
        assert_eq!(MouseEvent::from(code), button);
        assert!(!matches!(MouseEvent::from(code), MouseEvent::Raw(_)));
        assert_eq!(MouseEvent::Raw(code), button);
    }
    assert!(matches!(MouseEvent::from(0x10f), MouseEvent::Raw(0x10f)));
    assert!(matches!(MouseEvent::from(0x118), MouseEvent::Raw(0x118)));
    assert_eq!(MouseEvent::Raw(7).code(), 7);
    assert_ne!(MouseEvent::BtnLeft, MouseEvent::BtnRight);
    assert_ne!(MouseEvent::Raw(7), MouseEvent::Raw(8));
}

#[test]
fn mouse_actions_compare_by_kind_and_code() {
    assert_eq!(Mouse::ScrollUp, Mouse::ScrollUp);
    assert_ne!(Mouse::ScrollUp, Mouse::ScrollDown);
    assert_ne!(Mouse::ScrollLeft, Mouse::ScrollRight);
    assert_eq!(Mouse::Button(MouseEvent::BtnLeft), Mouse::Button(MouseEvent::Raw(0x110)));
    assert_ne!(Mouse::Button(MouseEvent::BtnLeft), Mouse::Button(MouseEvent::BtnSide));
    assert_ne!(Mouse::Button(MouseEvent::BtnLeft), Mouse::ScrollUp);
}

#[test]
fn bindings_compare_without_the_lock_keys() {
    let mut locked = held(true, false, true, false);
    locked.caps_lock = true;
    locked.num_lock = true;
    let a = MouseMap::new(Mouse::ScrollUp, held(true, false, true, false));
    assert_eq!(a, MouseMap::new(Mouse::ScrollUp, locked));
    assert_ne!(a, MouseMap::new(Mouse::ScrollUp, held(true, false, false, false)));
    assert_ne!(a, MouseMap::new(Mouse::ScrollUp, held(true, true, true, false)));
    assert_ne!(a, MouseMap::new(Mouse::ScrollUp, held(true, false, true, true)));
    assert_ne!(a, MouseMap::new(Mouse::ScrollUp, held(false, false, true, false)));
    assert_ne!(a, MouseMap::new(Mouse::ScrollDown, held(true, false, true, false)));

    let k = KeyMap::new(0x63, held(false, true, false, true));
    let mut locked = held(false, true, false, true);
    locked.num_lock = true;
    assert_eq!(k, KeyMap::new(0x63, locked));
    assert_ne!(k, KeyMap::new(0x64, held(false, true, false, true)));
    assert_ne!(k, KeyMap::new(0x63, Modifiers::none()));
    assert_eq!(k.key, 0x63);
    assert_eq!(k.modifier, held(false, true, false, true));
}

#[test]
fn scroll_needs_more_than_one_unit() {
    assert!(matches!(scroll(0, 257), Some(Mouse::ScrollDown)));
    assert!(matches!(scroll(0, -257), Some(Mouse::ScrollUp)));
    assert!(matches!(scroll(257, 256), Some(Mouse::ScrollLeft)));
    assert!(matches!(scroll(-257, -256), Some(Mouse::ScrollRight)));
    assert!(matches!(scroll(-257, 257), Some(Mouse::ScrollDown)));
    assert!(scroll(256, -256).is_none());
}

#[test]
fn modifiers_are_read_from_their_names() {
    assert_eq!(to_modifier(&[]), Ok(Modifiers::none()));
    assert_eq!(to_modifier(&names(&["ctrl"])), Ok(held(true, false, false, false)));
    assert_eq!(to_modifier(&names(&["alt"])), Ok(held(false, true, false, false)));
    assert_eq!(to_modifier(&names(&["shift"])), Ok(held(false, false, true, false)));
    assert_eq!(to_modifier(&names(&["logo"])), Ok(held(false, false, false, true)));
    assert_eq!(
        to_modifier(&names(&["logo", "ctrl", "logo", "shift"])),
        Ok(held(true, false, true, true))
    );
}

#[test]
fn the_first_unknown_name_is_the_error() {
    assert_eq!(
        to_modifier(&names(&["ctrl", "caps_lock", "hyper"])),
        Err("caps_lock is not a modifier".to_owned())
    );
    assert_eq!(to_modifier(&names(&["Shift"])), Err("Shift is not a modifier".to_owned()));
    assert_eq!(to_modifier(&names(&[""])), Err(" is not a modifier".to_owned()));
}

#[test]
fn modifiers_are_named_in_a_fixed_order() {
    assert_eq!(modifier_names(&Modifiers::none()), Vec::<&str>::new());
    assert_eq!(modifier_names(&held(true, true, true, true)), vec!["ctrl", "alt", "shift", "logo"]);
    assert_eq!(modifier_names(&held(false, true, false, true)), vec!["alt", "logo"]);
    let mut locked = held(false, false, true, false);
    locked.caps_lock = true;
    assert_eq!(modifier_names(&locked), vec!["shift"]);
    for bits in 0..16 {
        let m = held(bits & 1 != 0, bits & 2 != 0, bits & 4 != 0, bits & 8 != 0);
        assert_eq!(to_modifier(&names(&modifier_names(&m))), Ok(m));
    }
}

#[test]
fn only_draw_start_starts_a_draw() {
    assert!(Command::DrawStart(0, 1).draw_command());
    for c in [
        Command::Clear,
        Command::Undo,
        Command::NextColor,
        Command::SetTool(1),
        Command::IncreaseSize(51),
        Command::Execute("grim".to_owned()),
        Command::Combo(vec![Command::DrawStart(0, 0)]),
        Command::Nop,
    ] {
        assert!(!c.draw_command());
    }
}

fn config() -> Config {
    Config {
        size: 256,
        palette: vec!["#FF0000FF".to_owned(), "#00FF00FF".to_owned(), "#0000FFFF".to_owned()],
        distance: false,
        scroll_margine: 768,
        background: "#FFFFFF40".to_owned(),
        text_color: "#FFFFFFFF".to_owned(),
        tools: vec![DrawKind::Pen, DrawKind::Line, DrawKind::Rect],
        font: None,
        font_size: 3072,
        paused: false,
        scroll_threshold: 1280,
        save_on_exit: false,
        delete_save_on_resume: true,
        key_map: vec![
            (KeyMap::new(0x63, Modifiers::none()), Command::Clear),
            (KeyMap::new(0x75, Modifiers::none()), Command::Undo),
            (KeyMap::new(0x63, held(true, false, false, false)), Command::Save),
            (KeyMap::new(0x75, Modifiers::none()), Command::Nop),
        ],
        mouse_map: vec![
            (MouseMap::new(Mouse::Button(MouseEvent::BtnLeft), Modifiers::none()), Command::DrawStart(0, 0)),
            (MouseMap::new(Mouse::Button(MouseEvent::BtnRight), Modifiers::none()), Command::DrawStart(0, 1)),
            (MouseMap::new(Mouse::ScrollUp, Modifiers::none()), Command::IncreaseSize(51)),
        ],
    }
}

fn no_args() -> Args {
    Args {
        size: None,
        palette: None,
        distance: None,
        background: None,
        text_color: None,
        starting_tool: None,
        font: None,
        font_size: None,
        paused: None,
        scroll_treshold: None,
        save_on_exit: None,
        delete_save_on_resume: None,
    }
}

#[test]
fn settings_without_arguments_stay() {
    assert_eq!(config().overwrite(no_args()), config());
}

#[test]
fn arguments_take_the_place_of_settings() {
    let args = Args {
        size: Some(512),
        palette: Some(vec!["#000000FF".to_owned()]),
        distance: Some(true),
        background: Some("#00000000".to_owned()),
        text_color: Some("#000000FF".to_owned()),
        starting_tool: Some(DrawKind::Circle),
        font: Some("monospace".to_owned()),
        font_size: Some(4096),
        paused: Some(true),
        scroll_treshold: Some(99),
        save_on_exit: Some(true),
        delete_save_on_resume: Some(false),
    };
    let mut expected = config();
    expected.size = 512;
    expected.palette = vec!["#000000FF".to_owned()];
    expected.distance = true;
    expected.background = "#00000000".to_owned();
    expected.text_color = "#000000FF".to_owned();
    expected.font = Some("monospace".to_owned());
    expected.font_size = 4096;
    expected.paused = true;
    expected.save_on_exit = true;
    expected.delete_save_on_resume = false;
    assert_eq!(config().overwrite(args), expected);

    let mut with_font = config();
    with_font.font = Some("serif".to_owned());
    let mut expected = config();
    expected.font = Some("serif".to_owned());
    assert_eq!(with_font.overwrite(no_args()), expected);
}

#[test]
fn the_first_binding_of_a_key_counts() {
    let cfg = config();
    assert_eq!(cfg.key_command(&KeyMap::new(0x63, Modifiers::none())), Some(&Command::Clear));
    assert_eq!(cfg.key_command(&KeyMap::new(0x75, Modifiers::none())), Some(&Command::Undo));
    assert_eq!(
        cfg.key_command(&KeyMap::new(0x63, held(true, false, false, false))),
        Some(&Command::Save)
    );
    let mut locked = Modifiers::none();
    locked.caps_lock = true;
    assert_eq!(cfg.key_command(&KeyMap::new(0x63, locked)), Some(&Command::Clear));
    assert_eq!(cfg.key_command(&KeyMap::new(0x64, Modifiers::none())), None);
    assert_eq!(cfg.key_command(&KeyMap::new(0x63, held(false, false, true, false))), None);
}

#[test]
fn the_first_binding_of_a_mouse_action_counts() {
    let cfg = config();
    assert_eq!(
        cfg.mouse_command(&MouseMap::new(Mouse::Button(MouseEvent::Raw(0x111)), Modifiers::none())),
        Some(&Command::DrawStart(0, 1))
    );
    assert_eq!(
        cfg.mouse_command(&MouseMap::new(Mouse::ScrollUp, Modifiers::none())),
        Some(&Command::IncreaseSize(51))
    );
    assert_eq!(cfg.mouse_command(&MouseMap::new(Mouse::ScrollDown, Modifiers::none())), None);
    assert_eq!(
        cfg.mouse_command(&MouseMap::new(Mouse::ScrollUp, held(false, false, true, false))),
        None
    );
}

#[test]
fn frame_errors_have_their_messages() {
    assert_eq!(FrameError::NoFormat.message(), "NoFormat error");
    assert_eq!(FrameError::FrameFailed.message(), "Failed to render frame");
    assert_ne!(FrameState::Failed, FrameState::Finished);
}

fn buffer(format: Option<Format>) -> FrameEvent {
    FrameEvent::Buffer { format, width: 800, height: 600, stride: 3200 }
}

#[test]
fn capture_waits_for_the_formats_then_for_the_copy() {
    let mut capture = CaptureFrameState::new();
    assert_eq!(capture.format, None);
    assert_eq!(capture.state, None);
    assert!(!capture.buffer_done);
    assert_eq!(capture.step(false), CaptureStep::Dispatch);
    capture.event(buffer(Some(Format::Xbgr8888)));
    assert_eq!(capture.step(false), CaptureStep::Dispatch);
    for e in [FrameEvent::Flags, FrameEvent::Damage, FrameEvent::LinuxDmabuf] {
        let before = capture;
        capture.event(e);
        assert_eq!(capture, before);
    }
    capture.event(FrameEvent::BufferDone);
    let format = FrameFormat { format: Format::Xbgr8888, width: 800, height: 600, stride: 3200 };
    assert_eq!(capture.step(false), CaptureStep::Copy { format, pool: 1_920_000 });
    assert_eq!(capture.step(true), CaptureStep::Dispatch);
    capture.event(FrameEvent::Ready);
    assert_eq!(capture.state, Some(FrameState::Finished));
    assert_eq!(capture.step(true), CaptureStep::Finish(Conversion::SwapRedBlue));
}

#[test]
fn capture_without_a_known_format_gives_up() {
    let mut capture = CaptureFrameState::new();
    capture.event(buffer(None));
    capture.event(FrameEvent::BufferDone);
    assert_eq!(capture.step(false), CaptureStep::Fail(FrameError::NoFormat));
}

#[test]
fn capture_keeps_the_last_known_format() {
    let mut capture = CaptureFrameState::new();
    capture.event(buffer(Some(Format::Xbgr8888)));
    capture.event(buffer(Some(Format::Argb8888)));
    capture.event(buffer(None));
    capture.event(FrameEvent::BufferDone);
    capture.event(FrameEvent::Ready);
    assert_eq!(capture.format.unwrap().format, Format::Argb8888);
    assert_eq!(capture.step(true), CaptureStep::Finish(Conversion::Keep));
}

#[test]
fn failed_copy_gives_up() {
    let mut capture = CaptureFrameState::new();
    capture.event(buffer(Some(Format::Argb8888)));
    capture.event(FrameEvent::BufferDone);
    capture.event(FrameEvent::Failed);
    assert_eq!(capture.state, Some(FrameState::Failed));
    assert_eq!(capture.step(true), CaptureStep::Fail(FrameError::FrameFailed));
}

#[test]
fn only_two_layouts_can_be_painted() {
    assert_eq!(conversion(Format::Argb8888), Conversion::Keep);
    assert_eq!(conversion(Format::Xbgr8888), Conversion::SwapRedBlue);
    assert_eq!(conversion(Format::Other(0x34325258)), Conversion::Unsupported);
}

#[test]
fn red_and_blue_change_places_in_whole_pixels() {
    let mut canvas = vec![1, 2, 3, 4, 5, 6, 7, 8, 9, 10, 11];
    swap_red_blue(&mut canvas);
    assert_eq!(canvas, vec![3, 2, 1, 4, 7, 6, 5, 8, 9, 10, 11]);
    swap_red_blue(&mut canvas);
    assert_eq!(canvas, vec![1, 2, 3, 4, 5, 6, 7, 8, 9, 10, 11]);
    let mut canvas: Vec<u8> = Vec::new();
    swap_red_blue(&mut canvas);
    assert!(canvas.is_empty());
    let mut canvas = vec![1, 2, 3];
    swap_red_blue(&mut canvas);
    assert_eq!(canvas, vec![1, 2, 3]);
}

#[test]
fn named_buttons_have_their_names() {
    let named = [
        (0x110, "left"),
        (0x111, "right"),
        (0x112, "middle"),
        (0x113, "side"),
        (0x114, "extra"),
        (0x115, "forward"),
        (0x116, "back"),
        (0x117, "task"),
    ];
    for (code, name) in named {
        assert_eq!(MouseEvent::from(code).name(), Some(name));
    }
    assert_eq!(MouseEvent::from(0x118).name(), None);
    assert_eq!(MouseEvent::Raw(0x110).name(), None);
}

#[test]
fn shapes_are_known_by_their_names() {
    for kind in [DrawKind::Pen, DrawKind::Line, DrawKind::Rect, DrawKind::Circle] {
        assert_eq!(DrawKind::from_name(kind.name()), Some(kind));
    }
    assert_eq!(DrawKind::from_name("pen"), Some(DrawKind::Pen));
    assert_eq!(DrawKind::from_name("line"), Some(DrawKind::Line));
    assert_eq!(DrawKind::from_name("rect"), Some(DrawKind::Rect));
    assert_eq!(DrawKind::from_name("circle"), Some(DrawKind::Circle));
    assert_eq!(DrawKind::from_name("Pen"), None);
    assert_eq!(DrawKind::from_name("triangle"), None);
    assert_eq!(DrawKind::from_name(""), None);
}
