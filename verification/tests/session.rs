use rsaxi::device::{Device, DeviceOptions, MotorStatus, StepMode};
use rsaxi::discovery::{find_port, product_is_board, PortInfo, BAUD_RATE, READ_TIMEOUT_MS};
use rsaxi::executor::{slice_count, StepPosition};
use rsaxi::error::DeviceError;
use rsaxi::align::{TextAlign, TextBuilderError};
use rsaxi::font::{FontError, FontGroupType};
use rsaxi::lookahead::{begin, classify, follow, Cursor, Profile};
use rsaxi::model::AxiDrawModel;
use rsaxi::orchestrator::{after_step, draw, first_step, DrawStep, Stroke};
use rsaxi::reply::Answer;
use rsaxi::shutdown::{Phase, Shutdown, POLL_INTERVAL_MS};
use rsaxi::startup::{after_request, decode_step_mode, first_request};
use rsaxi::wire::{Effect, Request};

fn device() -> Device {
    Device::new(DeviceOptions::default())
}

fn lines(requests: &[Request]) -> Vec<String> {
    requests.iter().map(|r| String::from_utf8(r.line.clone()).expect("ascii")).collect()
}

fn invalid(parameter: &str, value: &str) -> DeviceError {
    DeviceError::InvalidValue { parameter: parameter.to_string(), value: value.to_string() }
}

#[test]
fn configure_sends_positions_and_rates() {
    let requests = device().configure().expect("requests");
    assert_eq!(lines(&requests), vec!["SC,4,19800\r", "SC,5,13650\r", "SC,11,750\r", "SC,12,750\r"]);
    assert!(requests.iter().all(|r| r.expects_ok && r.effect == Effect::Keep));
}

#[test]
fn configure_maps_percent_linearly() {
    let mut d = device();
    d.pen_up_position = 100;
    d.pen_down_position = 0;
    d.pen_up_speed = 1;
    d.pen_down_speed = -3;
    let requests = d.configure().expect("requests");
    assert_eq!(lines(&requests), vec!["SC,4,28000\r", "SC,5,7500\r", "SC,11,5\r", "SC,12,-15\r"]);
    d.pen_up_position = 50;
    d.pen_down_position = 1;
    d.pen_up_speed = i32::MAX;
    d.pen_down_speed = i32::MIN;
    let requests = d.configure().expect("requests");
    assert_eq!(
        lines(&requests),
        vec!["SC,4,17750\r", "SC,5,7705\r", "SC,11,10737418235\r", "SC,12,-10737418240\r"]
    );
}

#[test]
fn configure_rejects_positions_beyond_percent() {
    let mut d = device();
    d.pen_up_position = 101;
    assert_eq!(d.configure(), Err(invalid("pen_up_position", "101")));
    d.pen_down_position = -1;
    assert_eq!(d.configure(), Err(invalid("pen_up_position", "101")));
    d.pen_up_position = 0;
    assert_eq!(d.configure(), Err(invalid("pen_down_position", "-1")));
    d.pen_down_position = 0;
    d.disconnect();
    assert_eq!(
        d.configure(),
        Err(DeviceError::ConnectionError("device is not connected".to_string()))
    );
}

#[test]
fn query_enable_motors_reads_five_pins() {
    let requests = device().query_enable_motors().expect("requests");
    assert_eq!(lines(&requests), vec!["PI,E,0\r", "PI,C,1\r", "PI,E,2\r", "PI,E,1\r", "PI,A,6\r"]);
    assert!(requests.iter().all(|r| !r.expects_ok));
}

#[test]
fn startup_asks_in_order() {
    let requests = device().startup().expect("requests");
    assert_eq!(
        lines(&requests),
        vec![
            "SC,4,19800\r",
            "SC,5,13650\r",
            "SC,11,750\r",
            "SC,12,750\r",
            "QP\r",
            "PI,E,0\r",
            "PI,C,1\r",
            "PI,E,2\r",
            "PI,E,1\r",
            "PI,A,6\r",
        ]
    );
    let mut d = device();
    d.pen_down_position = 200;
    assert_eq!(d.startup(), Err(invalid("pen_down_position", "200")));
}

#[test]
fn microstep_pins_decode() {
    assert_eq!(decode_step_mode(true, true, true), Ok(StepMode::OneSixteenth));
    assert_eq!(decode_step_mode(true, true, false), Ok(StepMode::OneEighth));
    assert_eq!(decode_step_mode(false, true, false), Ok(StepMode::OneQuarter));
    assert_eq!(decode_step_mode(true, false, false), Ok(StepMode::OneHalf));
    assert_eq!(decode_step_mode(false, false, false), Ok(StepMode::FullStep));
}

#[test]
fn microstep_pins_outside_the_table() {
    let error = DeviceError::InvalidResponse("step mode pins are in no known combination".to_string());
    assert_eq!(decode_step_mode(false, false, true), Err(error.clone()));
    assert_eq!(decode_step_mode(false, true, true), Err(error.clone()));
    assert_eq!(decode_step_mode(true, false, true), Err(error));
}

#[test]
fn started_with_running_motors_asks_nothing() {
    let mut d = device();
    assert_eq!(d.started(true, true, true, true, true, false), Ok(None));
    assert!(d.is_lowered);
    assert!(d.motor1_enabled && d.motor2_enabled);
    assert_eq!(d.step_mode, StepMode::OneEighth);
}

#[test]
fn started_with_a_resting_motor_enables_both() {
    let mut d = device();
    let request = d.started(false, true, false, false, false, false).expect("ok").expect("request");
    assert_eq!(request.line, b"EM,5,1\r".to_vec());
    assert_eq!(
        request.effect,
        Effect::Motors { motor1: true, motor2: true, mode: StepMode::FullStep }
    );
    assert!(!d.is_lowered);
    assert!(d.motor1_enabled);
    assert!(!d.motor2_enabled);
    assert_eq!(d.step_mode, StepMode::FullStep);
    assert!(d.complete(&request, "OK\r\n").is_ok());
    assert!(d.motor1_enabled && d.motor2_enabled);
    assert_eq!(d.step_mode, StepMode::FullStep);
}

#[test]
fn started_with_unknown_pins_changes_nothing() {
    let mut d = device();
    let before = d;
    assert_eq!(
        d.started(true, true, true, false, true, true),
        Err(DeviceError::InvalidResponse("step mode pins are in no known combination".to_string()))
    );
    assert_eq!(d, before);
}

#[test]
fn shutdown_waits_then_disables_then_closes() {
    let mut d = device();
    let mut s = Shutdown::new();
    assert_eq!(s.phase, Phase::Waiting);
    assert!(!s.is_closed());
    let poll = s.request(&d).expect("a request").expect("framed");
    assert_eq!(poll.line, b"QM\r".to_vec());
    let moving = MotorStatus { executing_command: true, moving: true, fifo_empty: false };
    let idle = MotorStatus { executing_command: false, moving: false, fifo_empty: true };
    assert_eq!(s.advance(&mut d, Some(Ok(Answer::Motors(moving, idle)))), POLL_INTERVAL_MS);
    assert_eq!(s.phase, Phase::Waiting);
    assert_eq!(s.advance(&mut d, Some(Ok(Answer::Motors(idle, moving)))), 10);
    assert_eq!(s.phase, Phase::Waiting);
    assert_eq!(s.advance(&mut d, Some(Ok(Answer::Motors(idle, idle)))), 0);
    assert_eq!(s.phase, Phase::Disabling);
    assert!(d.connected);
    let off = s.request(&d).expect("a request").expect("framed");
    assert_eq!(off.line, b"EM,0,0\r".to_vec());
    assert!(d.complete(&off, "OK\r\n").is_ok());
    assert_eq!(s.advance(&mut d, Some(Ok(Answer::Text(String::new())))), 0);
    assert_eq!(s.phase, Phase::Closed);
    assert!(s.is_closed());
    assert!(!d.connected);
    assert!(s.request(&d).is_none());
    assert_eq!(s.advance(&mut d, None), 0);
    assert_eq!(s.phase, Phase::Closed);
}

#[test]
fn shutdown_goes_on_when_the_poll_fails() {
    let mut d = device();
    let mut s = Shutdown::new();
    let failure = DeviceError::InvalidResponse("malformed motor status".to_string());
    assert_eq!(s.advance(&mut d, Some(Err(failure))), 0);
    assert_eq!(s.phase, Phase::Disabling);
    assert!(d.connected);
    let failure = DeviceError::CommandError { command: "EM,0,0".to_string(), message: "x".to_string() };
    assert_eq!(s.advance(&mut d, Some(Err(failure))), 0);
    assert_eq!(s.phase, Phase::Closed);
    assert!(!d.connected);
}

#[test]
fn shutdown_of_a_disconnected_device() {
    let mut d = device();
    d.disconnect();
    let mut s = Shutdown::new();
    assert!(matches!(s.request(&d), Some(Err(DeviceError::ConnectionError(_)))));
    assert_eq!(s.advance(&mut d, None), 0);
    assert_eq!(s.phase, Phase::Disabling);
    assert!(matches!(s.request(&d), Some(Err(DeviceError::ConnectionError(_)))));
    assert_eq!(s.advance(&mut d, None), 0);
    assert!(s.is_closed());
}

#[test]
fn shutdown_ignores_answers_of_another_kind_while_waiting() {
    let mut d = device();
    let mut s = Shutdown::new();
    assert_eq!(s.advance(&mut d, Some(Ok(Answer::Pin(true)))), 0);
    assert_eq!(s.phase, Phase::Disabling);
}

#[test]
fn two_disjoint_polylines_lift_the_pen_in_between() {
    let strokes = vec![
        Stroke { empty: false, joins_next: false },
        Stroke { empty: false, joins_next: false },
    ];
    assert_eq!(
        draw(&strokes, 1600, StepMode::OneSixteenth),
        vec![
            DrawStep::EnableMotors { mode: StepMode::OneSixteenth },
            DrawStep::ZeroPosition,
            DrawStep::PenUp,
            DrawStep::Travel { from: None, to: 0 },
            DrawStep::PenDown,
            DrawStep::Trace { path: 0 },
            DrawStep::PenUp,
            DrawStep::Travel { from: Some(0), to: 1 },
            DrawStep::PenDown,
            DrawStep::Trace { path: 1 },
            DrawStep::PenUp,
            DrawStep::Home { step_frequency: 1600 },
        ]
    );
}

#[test]
fn two_joined_polylines_keep_the_pen_down() {
    let strokes = vec![
        Stroke { empty: false, joins_next: true },
        Stroke { empty: false, joins_next: false },
    ];
    assert_eq!(
        draw(&strokes, 1600, StepMode::OneSixteenth),
        vec![
            DrawStep::EnableMotors { mode: StepMode::OneSixteenth },
            DrawStep::ZeroPosition,
            DrawStep::PenUp,
            DrawStep::Travel { from: None, to: 0 },
            DrawStep::PenDown,
            DrawStep::Trace { path: 0 },
            DrawStep::Travel { from: Some(0), to: 1 },
            DrawStep::PenDown,
            DrawStep::Trace { path: 1 },
            DrawStep::PenUp,
            DrawStep::Home { step_frequency: 1600 },
        ]
    );
}

#[test]
fn empty_drawing_still_homes() {
    assert_eq!(
        draw(&Vec::new(), 1600, StepMode::FullStep),
        vec![
            DrawStep::EnableMotors { mode: StepMode::FullStep },
            DrawStep::ZeroPosition,
            DrawStep::PenUp,
            DrawStep::PenUp,
            DrawStep::Home { step_frequency: 1600 },
        ]
    );
}

#[test]
fn empty_polylines_are_skipped() {
    let strokes = vec![
        Stroke { empty: true, joins_next: false },
        Stroke { empty: false, joins_next: false },
        Stroke { empty: true, joins_next: false },
        Stroke { empty: false, joins_next: true },
    ];
    assert_eq!(
        draw(&strokes, 0, StepMode::OneEighth),
        vec![
            DrawStep::EnableMotors { mode: StepMode::OneEighth },
            DrawStep::ZeroPosition,
            DrawStep::PenUp,
            DrawStep::Travel { from: None, to: 1 },
            DrawStep::PenDown,
            DrawStep::Trace { path: 1 },
            DrawStep::PenUp,
            DrawStep::Travel { from: Some(1), to: 3 },
            DrawStep::PenDown,
            DrawStep::Trace { path: 3 },
            DrawStep::PenUp,
            DrawStep::Home { step_frequency: 2 },
        ]
    );
}

#[test]
fn home_frequency_is_kept_in_range() {
    let last = |rate: u32| *draw(&Vec::new(), rate, StepMode::OneSixteenth).last().expect("a step");
    assert_eq!(last(0), DrawStep::Home { step_frequency: 2 });
    assert_eq!(last(1), DrawStep::Home { step_frequency: 2 });
    assert_eq!(last(2), DrawStep::Home { step_frequency: 2 });
    assert_eq!(last(1600), DrawStep::Home { step_frequency: 1600 });
    assert_eq!(last(25000), DrawStep::Home { step_frequency: 25000 });
    assert_eq!(last(25001), DrawStep::Home { step_frequency: 25000 });
    assert_eq!(last(u32::MAX), DrawStep::Home { step_frequency: 25000 });
}

#[test]
fn steps_map_to_commands() {
    let d = device();
    let line = |step: DrawStep| {
        d.perform(&step).map(|r| String::from_utf8(r.expect("framed").line).expect("ascii"))
    };
    assert_eq!(line(DrawStep::ZeroPosition), Some("CS\r".to_string()));
    assert_eq!(
        line(DrawStep::EnableMotors { mode: StepMode::OneSixteenth }),
        Some("EM,1,1\r".to_string())
    );
    assert_eq!(line(DrawStep::PenUp), Some("SP,1,200\r".to_string()));
    assert_eq!(line(DrawStep::PenDown), Some("SP,0,200\r".to_string()));
    assert_eq!(line(DrawStep::Home { step_frequency: 1600 }), Some("HM,1600\r".to_string()));
    assert_eq!(line(DrawStep::Travel { from: None, to: 0 }), None);
    assert_eq!(line(DrawStep::Trace { path: 0 }), None);
    assert_eq!(
        d.perform(&DrawStep::Home { step_frequency: 1 }),
        Some(Err(invalid("step_frequency", "1")))
    );
}

#[test]
fn profiles_are_chosen_in_order_of_precedence() {
    assert_eq!(classify(true, true, true), Profile::TooFast);
    assert_eq!(classify(true, false, false), Profile::TooFast);
    assert_eq!(classify(false, true, true), Profile::Accelerate);
    assert_eq!(classify(false, true, false), Profile::Accelerate);
    assert_eq!(classify(false, false, true), Profile::Trapezoid);
    assert_eq!(classify(false, false, false), Profile::Triangle);
}

#[test]
fn profiles_emit_blocks() {
    assert_eq!(Profile::TooFast.blocks(), 0);
    assert_eq!(Profile::Accelerate.blocks(), 1);
    assert_eq!(Profile::Triangle.blocks(), 2);
    assert_eq!(Profile::Trapezoid.blocks(), 3);
}

#[test]
fn forward_pass_advances_and_backtracks() {
    assert_eq!(follow(0, 5, Profile::Triangle), Cursor::At(1));
    assert_eq!(follow(2, 5, Profile::Trapezoid), Cursor::At(3));
    assert_eq!(follow(3, 5, Profile::Accelerate), Cursor::Done);
    assert_eq!(follow(3, 5, Profile::TooFast), Cursor::At(2));
    assert_eq!(follow(1, 5, Profile::TooFast), Cursor::At(0));
    assert_eq!(follow(0, 5, Profile::TooFast), Cursor::Stuck);
    assert_eq!(follow(4, 5, Profile::TooFast), Cursor::Done);
    assert_eq!(follow(0, 1, Profile::Triangle), Cursor::Done);
    assert_eq!(follow(0, 0, Profile::TooFast), Cursor::Done);
    assert_eq!(follow(0, 2, Profile::Triangle), Cursor::Done);
    assert_eq!(follow(usize::MAX, usize::MAX, Profile::Triangle), Cursor::Done);
}

#[test]
fn model_names_and_areas() {
    assert_eq!(AxiDrawModel::V3.name(), "AxiDraw V3");
    assert_eq!(AxiDrawModel::V3A3.name(), "AxiDraw V3/A3");
    assert_eq!(AxiDrawModel::SEA3.name(), "AxiDraw SE/A3");
    assert_eq!(AxiDrawModel::Mini.name(), "AxiDraw Mini");
    assert_eq!((AxiDrawModel::V3.width_tenths(), AxiDrawModel::V3.height_tenths()), (2159, 2794));
    assert_eq!((AxiDrawModel::V3A3.width_tenths(), AxiDrawModel::V3A3.height_tenths()), (2794, 4318));
    assert_eq!((AxiDrawModel::SEA3.width_tenths(), AxiDrawModel::SEA3.height_tenths()), (2794, 4318));
    assert_eq!((AxiDrawModel::Mini.width_tenths(), AxiDrawModel::Mini.height_tenths()), (1600, 1010));
    assert_eq!(AxiDrawModel::V3.width_tenths() as f64 / 10.0, 215.9);
    assert_eq!(AxiDrawModel::V3.height_tenths() as f64 / 10.0, 279.4);
    assert_eq!(AxiDrawModel::SEA3.height_tenths() as f64 / 10.0, 431.8);
}

fn port(name: &str, product: Option<&str>) -> PortInfo {
    PortInfo { port_name: name.to_string(), product: product.map(|p| p.to_string()) }
}

#[test]
fn link_settings() {
    assert_eq!(BAUD_RATE, 115200);
    assert_eq!(READ_TIMEOUT_MS, 100);
}

#[test]
fn board_is_known_by_its_product_string() {
    assert!(product_is_board("EiBotBoard"));
    assert!(product_is_board("EiBotBoard v2.8"));
    assert!(!product_is_board("EiBotBoar"));
    assert!(!product_is_board("eibotboard"));
    assert!(!product_is_board(" EiBotBoard"));
    assert!(!product_is_board(""));
    assert!(!product_is_board("Arduino Uno"));
    assert!(!product_is_board("EiBotBo\u{e4}rd!"));
}

#[test]
fn first_port_with_the_board_is_picked() {
    let ports = vec![
        port("/dev/ttyS0", None),
        port("/dev/ttyUSB0", Some("FT232R USB UART")),
        port("/dev/ttyACM0", Some("EiBotBoard")),
        port("/dev/ttyACM1", Some("EiBotBoard")),
    ];
    assert_eq!(find_port(&DeviceOptions::default(), &ports), Ok("/dev/ttyACM0".to_string()));
    let mut options = DeviceOptions::default();
    options.port_name = Some("/dev/ttyS0".to_string());
    assert_eq!(find_port(&options, &ports), Ok("/dev/ttyS0".to_string()));
    options.port_name = Some("COM9".to_string());
    assert_eq!(find_port(&options, &Vec::new()), Ok("COM9".to_string()));
}

#[test]
fn no_port_with_the_board_is_a_connection_error() {
    let ports = vec![port("/dev/ttyS0", None), port("COM3", Some("Arduino"))];
    assert_eq!(
        find_port(&DeviceOptions::default(), &ports),
        Err(DeviceError::ConnectionError(
            "no device found among the ports: /dev/ttyS0 COM3 ".to_string()
        ))
    );
    assert_eq!(
        find_port(&DeviceOptions::default(), &Vec::new()),
        Err(DeviceError::ConnectionError("no device found among the ports: ".to_string()))
    );
}

#[test]
fn steps_per_unit_follow_the_step_mode() {
    assert_eq!(StepMode::OneSixteenth.steps_per_unit(), Some(80));
    assert_eq!(StepMode::OneEighth.steps_per_unit(), Some(40));
    assert_eq!(StepMode::OneQuarter.steps_per_unit(), Some(20));
    assert_eq!(StepMode::OneHalf.steps_per_unit(), Some(10));
    assert_eq!(StepMode::FullStep.steps_per_unit(), Some(5));
    assert_eq!(StepMode::Disable.steps_per_unit(), None);
    assert_eq!(
        DeviceOptions::default().step_mode.steps_per_unit(),
        Some(DeviceOptions::default().steps_per_unit)
    );
}

#[test]
fn slices_move_by_the_difference_of_positions() {
    let d = device();
    let line = |from: (i32, i32), to: (i32, i32)| {
        d.slice_move(100, StepPosition { a: from.0, b: from.1 }, StepPosition { a: to.0, b: to.1 })
            .map(|r| String::from_utf8(r.line).expect("ascii"))
    };
    assert_eq!(line((0, 0), (8, -3)), Ok("XM,100,8,-3\r".to_string()));
    assert_eq!(line((8, -3), (8, -3)), Ok("XM,100,0,0\r".to_string()));
    assert_eq!(line((100, 100), (90, 120)), Ok("XM,100,-10,20\r".to_string()));
    assert_eq!(line((-16777215, 0), (0, 16777215)), Ok("XM,100,16777215,16777215\r".to_string()));
    assert_eq!(line((0, 0), (16777216, 0)), Err(invalid("axis_steps_a", "16777216")));
    assert_eq!(line((0, 1), (0, -16777215)), Err(invalid("axis_steps_b", "-16777216")));
    assert_eq!(
        line((i32::MIN, i32::MAX), (i32::MAX, i32::MIN)),
        Err(invalid("axis_steps_a", "4294967295"))
    );
    assert_eq!(
        line((0, i32::MAX), (0, i32::MIN)),
        Err(invalid("axis_steps_b", "-4294967295"))
    );
}

#[test]
fn slices_need_a_valid_duration() {
    let d = device();
    let here = StepPosition { a: 0, b: 0 };
    assert_eq!(d.slice_move(0, here, here), Err(invalid("step_ms", "0")));
    assert_eq!(d.slice_move(16777216, here, here), Err(invalid("step_ms", "16777216")));
    assert!(d.slice_move(16777215, here, here).is_ok());
    let far = StepPosition { a: i32::MAX, b: i32::MAX };
    assert_eq!(d.slice_move(0, here, far), Err(invalid("step_ms", "0")));
}

#[test]
fn slices_add_up_to_the_last_position() {
    let d = device();
    let samples = [(3, 1), (7, 1), (7, -4), (2, -9), (40, 40)];
    let mut from = StepPosition { a: 0, b: 0 };
    let (mut total_a, mut total_b) = (0i64, 0i64);
    for (a, b) in samples {
        let to = StepPosition { a, b };
        let request = d.slice_move(30, from, to).expect("request");
        let text = String::from_utf8(request.line).expect("ascii");
        let fields: Vec<&str> = text.trim_end().split(',').collect();
        total_a += fields[2].parse::<i64>().expect("steps");
        total_b += fields[3].parse::<i64>().expect("steps");
        from = to;
    }
    assert_eq!((total_a, total_b), (40, 40));
}

#[test]
fn plans_are_cut_into_as_many_slices_as_they_need() {
    assert_eq!(slice_count(3200, 100), Ok(32));
    assert_eq!(slice_count(3201, 100), Ok(33));
    assert_eq!(slice_count(3299, 100), Ok(33));
    assert_eq!(slice_count(0, 100), Ok(0));
    assert_eq!(slice_count(1, 100), Ok(1));
    assert_eq!(slice_count(100, 100), Ok(1));
    assert_eq!(slice_count(u64::MAX, 1), Ok(u64::MAX));
    assert_eq!(slice_count(u64::MAX, 16777215), Ok(1099511693313));
    assert_eq!(slice_count(10, 0), Err(invalid("step_ms", "0")));
    assert_eq!(slice_count(10, 16777216), Err(invalid("step_ms", "16777216")));
}

#[test]
fn empty_polyline_at_the_end_raises_nothing() {
    let with_empty = vec![
        Stroke { empty: false, joins_next: false },
        Stroke { empty: true, joins_next: false },
    ];
    let without = vec![Stroke { empty: false, joins_next: false }];
    let expected = vec![
        DrawStep::EnableMotors { mode: StepMode::OneSixteenth },
        DrawStep::ZeroPosition,
        DrawStep::PenUp,
        DrawStep::Travel { from: None, to: 0 },
        DrawStep::PenDown,
        DrawStep::Trace { path: 0 },
        DrawStep::PenUp,
        DrawStep::Home { step_frequency: 1600 },
    ];
    assert_eq!(draw(&with_empty, 1600, StepMode::OneSixteenth), expected);
    assert_eq!(draw(&without, 1600, StepMode::OneSixteenth), expected);
}

#[test]
fn empty_polylines_in_between_do_not_count() {
    let joined = vec![
        Stroke { empty: false, joins_next: true },
        Stroke { empty: true, joins_next: false },
        Stroke { empty: true, joins_next: true },
        Stroke { empty: false, joins_next: true },
        Stroke { empty: true, joins_next: false },
    ];
    assert_eq!(
        draw(&joined, 1600, StepMode::OneSixteenth),
        vec![
            DrawStep::EnableMotors { mode: StepMode::OneSixteenth },
            DrawStep::ZeroPosition,
            DrawStep::PenUp,
            DrawStep::Travel { from: None, to: 0 },
            DrawStep::PenDown,
            DrawStep::Trace { path: 0 },
            DrawStep::Travel { from: Some(0), to: 3 },
            DrawStep::PenDown,
            DrawStep::Trace { path: 3 },
            DrawStep::PenUp,
            DrawStep::Home { step_frequency: 1600 },
        ]
    );
    let apart = vec![
        Stroke { empty: false, joins_next: false },
        Stroke { empty: true, joins_next: false },
        Stroke { empty: false, joins_next: false },
    ];
    let steps = draw(&apart, 1600, StepMode::OneSixteenth);
    assert_eq!(steps.iter().filter(|s| **s == DrawStep::PenUp).count(), 3);
    assert_eq!(steps[6], DrawStep::PenUp);
    assert_eq!(steps[7], DrawStep::Travel { from: Some(0), to: 2 });
}

#[test]
fn the_first_failure_ends_a_drawing() {
    let steps = draw(&vec![Stroke { empty: false, joins_next: false }], 1600, StepMode::FullStep);
    assert_eq!(steps.len(), 8);
    assert_eq!(after_step(&steps, 0, false), Some(1));
    assert_eq!(after_step(&steps, 6, false), Some(7));
    assert_eq!(after_step(&steps, 7, false), None);
    assert_eq!(after_step(&steps, 0, true), None);
    assert_eq!(after_step(&steps, 3, true), None);
    assert_eq!(after_step(&steps, 8, false), None);
    assert_eq!(after_step(&steps, usize::MAX, false), None);
    assert_eq!(after_step(&Vec::new(), 0, false), None);
    assert_eq!(first_step(&steps), Some(0));
    assert_eq!(first_step(&Vec::new()), None);
}

#[test]
fn the_first_failure_ends_a_startup() {
    let requests = device().startup().expect("requests");
    assert_eq!(after_request(&requests, 0, false), Some(1));
    assert_eq!(after_request(&requests, 8, false), Some(9));
    assert_eq!(after_request(&requests, 9, false), None);
    assert_eq!(after_request(&requests, 4, true), None);
    assert_eq!(after_request(&requests, usize::MAX, false), None);
    assert_eq!(first_request(&requests), Some(0));
    assert_eq!(first_request(&Vec::new()), None);
}

fn startup_answers(lowered: bool, pins: [bool; 5]) -> Vec<Answer> {
    let mut answers = vec![
        Answer::Text(String::new()),
        Answer::Text(String::new()),
        Answer::Text(String::new()),
        Answer::Text(String::new()),
        Answer::Pen(lowered),
    ];
    for level in pins {
        answers.push(Answer::Pin(level));
    }
    answers
}

#[test]
fn acquaint_reads_the_startup_answers() {
    let mut d = device();
    assert_eq!(d.acquaint(&startup_answers(true, [true, true, true, true, false])), Ok(None));
    assert!(d.is_lowered && d.motor1_enabled && d.motor2_enabled);
    assert_eq!(d.step_mode, StepMode::OneEighth);

    let mut d = device();
    let request = d
        .acquaint(&startup_answers(false, [false, true, false, false, false]))
        .expect("ok")
        .expect("request");
    assert_eq!(request.line, b"EM,5,1\r".to_vec());
    assert!(!d.is_lowered && !d.motor1_enabled && d.motor2_enabled);
    assert_eq!(d.step_mode, StepMode::FullStep);

    let mut a = device();
    let mut b = device();
    let answers = startup_answers(true, [true, false, true, false, false]);
    assert_eq!(a.acquaint(&answers), b.started(true, true, false, true, false, false));
    assert_eq!(a, b);
}

#[test]
fn acquaint_refuses_answers_of_another_shape() {
    let refused = Err(DeviceError::InvalidResponse(
        "startup answers are not the ones asked for".to_string(),
    ));
    let good = startup_answers(true, [true, true, true, true, true]);
    let mut shapes: Vec<Vec<Answer>> = vec![Vec::new(), good[..9].to_vec()];
    let mut longer = good.clone();
    longer.push(Answer::Pin(true));
    shapes.push(longer);
    for i in 0..10 {
        let mut wrong = good.clone();
        wrong[i] = Answer::Position(0, 0);
        shapes.push(wrong);
    }
    let mut swapped = good.clone();
    swapped.swap(4, 5);
    shapes.push(swapped);
    for answers in shapes {
        let mut d = device();
        let before = d;
        assert_eq!(d.acquaint(&answers), refused);
        assert_eq!(d, before);
    }
    let mut d = device();
    let before = d;
    assert_eq!(
        d.acquaint(&startup_answers(true, [true, true, false, true, true])),
        Err(DeviceError::InvalidResponse("step mode pins are in no known combination".to_string()))
    );
    assert_eq!(d, before);
}

#[test]
fn forward_pass_begins_at_the_first_segment() {
    assert_eq!(begin(0), Cursor::Done);
    assert_eq!(begin(1), Cursor::Done);
    assert_eq!(begin(2), Cursor::At(0));
    assert_eq!(begin(usize::MAX), Cursor::At(0));
}

#[test]
fn alignment_is_read_from_its_name() {
    assert_eq!(TextAlign::from_str("left"), Ok(TextAlign::Left));
    assert_eq!(TextAlign::from_str("center"), Ok(TextAlign::Center));
    assert_eq!(TextAlign::from_str("right"), Ok(TextAlign::Right));
    assert_eq!(TextAlign::from_str("LEFT"), Ok(TextAlign::Left));
    assert_eq!(TextAlign::from_str("CeNtEr"), Ok(TextAlign::Center));
    assert_eq!(TextAlign::from_str("Right"), Ok(TextAlign::Right));
}

#[test]
fn alignment_names_match_lower_casing() {
    let names = [
        "", "left ", " left", "lef", "leftt", "centre", "middle", "r\u{130}ght", "ri\u{307}ght",
        "\u{212a}", "le\u{fb00}t", "RIGHT", "rIgHt", "CENTER", "Left", "justify", "l\u{45}ft",
    ];
    for name in names {
        let expected = match name.to_lowercase().as_str() {
            "left" => Some(TextAlign::Left),
            "center" => Some(TextAlign::Center),
            "right" => Some(TextAlign::Right),
            _ => None,
        };
        assert_eq!(TextAlign::from_str(name).ok(), expected, "{:?}", name);
    }
    assert_eq!(
        TextAlign::from_str("centre"),
        Err(FontError::GenericError("invalid value of align".to_string()))
    );
}

#[test]
fn font_and_text_errors_describe_themselves() {
    assert_eq!(
        FontError::GlyphParsingError { glyph: "    8  9MW".to_string(), message: "too short".to_string() }
            .describe(),
        "cannot read the glyph     8  9MW: too short"
    );
    assert_eq!(
        FontError::FontCreationError { file: "romans".to_string(), source: "no such table".to_string() }
            .describe(),
        "cannot make a font from romans: no such table"
    );
    assert_eq!(FontError::GenericError("x".to_string()).describe(), "font error: x");
    assert_eq!(TextBuilderError::MissingContent.describe(), "the content of the text is not given");
    assert_eq!(TextBuilderError::MissingFont.describe(), "the font of the text is not given");
    assert_eq!(TextBuilderError::MissingWidth.describe(), "the width of the text is not given");
    assert_eq!(TextBuilderError::InvalidAlignment.describe(), "invalid value of align");
    assert_ne!(FontGroupType::Occidental, FontGroupType::Oriental);
}
