use memex_core::geometry::{NativeRect, WebViewBounds, WindowSize};
use memex_core::pump::{EventLoopHandle, PumpAction, PumpDelayMs, PumpEvent, FRAME_RATE_DELAY_MS};

#[test]
fn native_rect_measures_from_the_bottom() {
    let bounds = WebViewBounds {
        x: 250,
        y: 80,
        width: 774,
        height: 688,
        window_size: WindowSize { width: 1024, height: 768 },
    };
    assert_eq!(
        bounds.to_native(),
        Some(NativeRect { x: 250, y: 0, width: 774, height: 688 })
    );
    let raised = WebViewBounds { y: 30, height: 600, ..bounds };
    assert_eq!(
        raised.to_native(),
        Some(NativeRect { x: 250, y: 138, width: 774, height: 600 })
    );
}

#[test]
fn native_rect_is_refused_where_it_overflows() {
    let window = WindowSize { width: 100, height: 100 };
    let tall = WebViewBounds { x: 0, y: i32::MAX, width: 1, height: 1, window_size: window };
    assert_eq!(tall.to_native(), None);
    let deep = WebViewBounds {
        x: 0,
        y: i32::MIN,
        width: 1,
        height: 0,
        window_size: WindowSize { width: 1, height: 1 },
    };
    assert_eq!(deep.to_native(), None);
}

#[test]
fn view_fills_the_window_beside_the_panels() {
    let window = WindowSize { width: 1280, height: 800 };
    assert_eq!(
        WebViewBounds::beside_panels(window, 260, 76),
        Some(WebViewBounds { x: 260, y: 76, width: 1020, height: 724, window_size: window })
    );
    assert_eq!(
        WebViewBounds::beside_panels(window, 0, 0),
        Some(WebViewBounds { x: 0, y: 0, width: 1280, height: 800, window_size: window })
    );
}

#[test]
fn view_beside_panels_is_refused_where_it_overflows() {
    let window = WindowSize { width: i32::MAX, height: 10 };
    assert_eq!(WebViewBounds::beside_panels(window, -1, 0), None);
    let low = WindowSize { width: 10, height: i32::MIN };
    assert_eq!(WebViewBounds::beside_panels(low, 0, 1), None);
}

#[test]
fn pump_starts_at_the_frame_rate() {
    assert_eq!(FRAME_RATE_DELAY_MS, 16);
    assert_eq!(EventLoopHandle::new().delay_ms(), 16);
}

#[test]
fn pump_request_for_now_gives_a_turn_and_keeps_the_delay() {
    let mut pump = EventLoopHandle::new();
    pump.step(PumpEvent::Request(PumpDelayMs(40)));
    assert_eq!(pump.step(PumpEvent::Request(PumpDelayMs(0))), PumpAction::DoWork);
    assert_eq!(pump.delay_ms(), 40);
}

#[test]
fn pump_request_for_later_sets_the_delay() {
    let mut pump = EventLoopHandle::new();
    assert_eq!(pump.step(PumpEvent::Request(PumpDelayMs(250))), PumpAction::Wait);
    assert_eq!(pump.delay_ms(), 250);
}

#[test]
fn pump_timer_gives_a_turn_and_resets_the_delay() {
    let mut pump = EventLoopHandle::new();
    pump.step(PumpEvent::Request(PumpDelayMs(250)));
    assert_eq!(pump.step(PumpEvent::TimerFired), PumpAction::DoWork);
    assert_eq!(pump.delay_ms(), 16);
}

#[test]
fn pump_stops_when_the_engine_has_gone() {
    let mut pump = EventLoopHandle::new();
    pump.step(PumpEvent::Request(PumpDelayMs(99)));
    assert_eq!(pump.step(PumpEvent::Closed), PumpAction::Stop);
    assert_eq!(pump.delay_ms(), 99);
}
