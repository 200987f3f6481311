use innerput::win32::platform::Request;
use innerput::win32::window::get_top_level_window;
use innerput::win32::window::Error;
use innerput::win32::window::Window;

fn window_of(handle: usize, process_id: u32, visible: bool) -> Window {
    Window {
        handle,
        process_id,
        thread_id: 100 + handle as u32,
        visible,
        minimized: false,
        hung: false,
        owner: None,
    }
}

#[test]
fn raw_handle_makes_a_blank_window() {
    let window = Window::from_raw_handle(0x1234);
    assert_eq!(window.handle, 0x1234);
    assert_eq!(window.process_id(), 0);
    assert_eq!(window.thread_id(), 0);
    assert!(!window.is_visible());
    assert!(!window.is_minimized());
    assert!(!window.is_hung());
    assert_eq!(window.owner, None);
}

#[test]
fn queries_return_what_was_observed() {
    let window = Window {
        handle: 7,
        process_id: 4242,
        thread_id: 17,
        visible: true,
        minimized: true,
        hung: true,
        owner: Some(3),
    };
    assert_eq!(window.process_id(), 4242);
    assert_eq!(window.thread_id(), 17);
    assert!(window.is_visible());
    assert!(window.is_minimized());
    assert!(window.is_hung());
}

#[test]
fn windows_are_equal_by_identifier() {
    let seen = window_of(7, 1, true);
    let mut later = window_of(7, 1, false);
    later.minimized = true;
    assert_eq!(seen, later);
    assert_ne!(seen, window_of(8, 1, true));
}

#[test]
fn foreground_is_decided_by_identifier() {
    let window = window_of(7, 1, true);
    let mut same = window_of(7, 1, true);
    same.hung = true;
    assert_eq!(window.is_foreground(Some(&same)), Ok(true));
    assert_eq!(window.is_foreground(Some(&window_of(8, 1, true))), Ok(false));
}

#[test]
fn foreground_without_a_report_is_an_error() {
    let window = window_of(7, 1, true);
    assert_eq!(window.is_foreground(None), Err(Error::NoForegroundWindow));
}

#[test]
fn restore_is_asked_only_of_a_minimized_window() {
    let mut window = window_of(7, 1, true);
    assert_eq!(window.restore_if_minimized(), None);
    window.minimized = true;
    assert_eq!(window.restore_if_minimized(), Some(Request::Restore(7)));
    assert_eq!(window.restore_if_minimized(), Some(Request::Restore(7)));
}

#[test]
fn finder_takes_the_first_visible_window_of_the_process() {
    let windows = [
        window_of(1, 10, true),
        window_of(2, 20, false),
        window_of(3, 20, true),
        window_of(4, 20, true),
    ];
    let found = get_top_level_window(&windows, 20).unwrap();
    assert_eq!(found.handle, 3);
    assert_eq!(found.process_id(), 20);
    assert!(found.is_visible());
}

#[test]
fn finder_follows_the_order_of_the_enumeration() {
    let windows = [window_of(4, 20, true), window_of(3, 20, true)];
    assert_eq!(get_top_level_window(&windows, 20).unwrap().handle, 4);
    let reversed = [window_of(3, 20, true), window_of(4, 20, true)];
    assert_eq!(get_top_level_window(&reversed, 20).unwrap().handle, 3);
}

#[test]
fn finder_fails_without_a_visible_window_of_the_process() {
    let windows = [window_of(1, 10, true), window_of(2, 20, false)];
    assert_eq!(get_top_level_window(&windows, 20), Err(Error::WindowNotFound(20)));
    assert_eq!(get_top_level_window(&windows, 30), Err(Error::WindowNotFound(30)));
}

#[test]
fn finder_fails_on_an_empty_desktop() {
    assert_eq!(get_top_level_window(&[], 20), Err(Error::WindowNotFound(20)));
}
