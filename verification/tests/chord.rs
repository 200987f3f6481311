use innerput::win32::keyboard::Error as KeyboardError;
use innerput::win32::keyboard::InputEvent;
use innerput::win32::keyboard::Phase;
use innerput::win32::platform::Reply;
use innerput::win32::platform::Request;
use innerput::win32::platform::Step;
use innerput::win32::window::Error as WindowError;
use innerput::win32::window::Window;
use innerput::win32::ChordSender;
use innerput::win32::Error;
use innerput::Innerput;
use innerput::Key;
use innerput::Keyboard;

const CHILD: u32 = 4711;
const CHILD_WINDOW: usize = 0xC0;
const SHELL_WINDOW: usize = 0xD0;

/// A desktop made for a test, with a US keyboard.
struct Screen {
    windows: Vec<Window>,
    foreground: Option<usize>,
    obeys: bool,
    log: Vec<Request>,
    batches: Vec<Vec<InputEvent>>,
}

impl Screen {
    fn new() -> Screen {
        Screen {
            windows: vec![shown(SHELL_WINDOW, 1, 11), shown(CHILD_WINDOW, CHILD, 22)],
            foreground: Some(SHELL_WINDOW),
            obeys: true,
            log: vec![],
            batches: vec![],
        }
    }

    fn find(&self, handle: usize) -> Option<Window> {
        self.windows.iter().find(|window| window.handle == handle).copied()
    }

    fn scan(unit: u16) -> i16 {
        match char::from_u32(unit as u32) {
            Some(c) if c.is_ascii_lowercase() => c.to_ascii_uppercase() as i16,
            Some(c) if c.is_ascii_uppercase() => 0x0100 | c as i16,
            Some(c) if c.is_ascii_digit() => c as i16,
            _ => -1,
        }
    }

    fn perform(&mut self, request: &Request) -> Reply {
        self.log.push(request.clone());
        match request {
            Request::EnumerateWindows => Reply::Windows(self.windows.clone()),
            Request::ForegroundWindow => {
                Reply::Window(self.foreground.and_then(|handle| self.find(handle)))
            }
            Request::TaskbarWindow => Reply::Window(None),
            Request::ObserveWindow(handle) => Reply::Window(self.find(*handle)),
            Request::CurrentThread => Reply::Thread(1),
            Request::Attach(_) => Reply::Attached(true),
            Request::SetForeground(handle) => {
                if self.obeys {
                    self.foreground = Some(*handle);
                }
                Reply::Done
            }
            Request::Translate(unit) => Reply::Scan(Screen::scan(*unit)),
            Request::Submit(batch) => {
                self.batches.push(batch.clone());
                Reply::Done
            }
            Request::Detach(_) | Request::Restore(_) | Request::Settle(_) => Reply::Done,
        }
    }
}

fn shown(handle: usize, process_id: u32, thread_id: u32) -> Window {
    Window {
        handle,
        process_id,
        thread_id,
        visible: true,
        minimized: false,
        hung: false,
        owner: None,
    }
}

fn run_sender(sender: &mut ChordSender, screen: &mut Screen) -> Result<(), Error> {
    let mut step = sender.pending();
    for _ in 0..1000 {
        match step {
            Step::Perform(request) => {
                let reply = screen.perform(&request);
                step = sender.advance(&reply);
            }
            Step::Finished(result) => return result,
        }
    }
    panic!("the sending did not end");
}

fn send(keys: &[Key], screen: &mut Screen) -> Result<(), Error> {
    let mut sender = Innerput::new().send_chord(keys, CHILD);
    run_sender(&mut sender, screen)
}

fn press(code: u16) -> InputEvent {
    InputEvent { code, phase: Phase::Press }
}

fn release(code: u16) -> InputEvent {
    InputEvent { code, phase: Phase::Release }
}

#[test]
fn control_c_is_sent_as_one_batch_of_four_events() {
    let mut screen = Screen::new();
    assert_eq!(send(&[Key::Control, Key::Char('c')], &mut screen), Ok(()));
    assert_eq!(
        screen.batches,
        vec![vec![press(0x11), press(0x43), release(0x11), release(0x43)]]
    );
    assert_eq!(screen.foreground, Some(CHILD_WINDOW));
}

#[test]
fn batch_is_the_last_thing_asked_for() {
    let mut screen = Screen::new();
    assert_eq!(send(&[Key::Control, Key::Char('c')], &mut screen), Ok(()));
    assert!(matches!(screen.log.last(), Some(Request::Submit(_))));
    assert_eq!(screen.log.iter().filter(|r| matches!(r, Request::Submit(_))).count(), 1);
    let translate = screen.log.iter().position(|r| matches!(r, Request::Translate(_))).unwrap();
    let last_detach = screen.log.iter().rposition(|r| matches!(r, Request::Detach(_))).unwrap();
    assert!(last_detach < translate);
}

#[test]
fn chord_to_a_window_in_the_foreground_is_sent_at_once() {
    let mut screen = Screen::new();
    screen.foreground = Some(CHILD_WINDOW);
    assert_eq!(send(&[Key::Alt, Key::F4], &mut screen), Ok(()));
    assert_eq!(
        screen.log,
        vec![
            Request::EnumerateWindows,
            Request::ForegroundWindow,
            Request::Submit(vec![press(0x12), press(0x73), release(0x12), release(0x73)]),
        ]
    );
}

#[test]
fn empty_chord_is_sent_as_an_empty_batch() {
    let mut screen = Screen::new();
    assert_eq!(send(&[], &mut screen), Ok(()));
    assert_eq!(screen.batches, vec![Vec::<InputEvent>::new()]);
}

#[test]
fn each_character_is_translated_once() {
    let mut screen = Screen::new();
    let keys = [Key::Char('a'), Key::Shift, Key::Char('b'), Key::Char('a')];
    assert_eq!(send(&keys, &mut screen), Ok(()));
    let asked: Vec<&Request> =
        screen.log.iter().filter(|r| matches!(r, Request::Translate(_))).collect();
    assert_eq!(asked, vec![&Request::Translate('a' as u16), &Request::Translate('b' as u16)]);
    assert_eq!(
        screen.batches,
        vec![vec![
            press(0x41),
            press(0x10),
            press(0x42),
            press(0x41),
            release(0x41),
            release(0x10),
            release(0x42),
            release(0x41),
        ]]
    );
}

#[test]
fn unmappable_character_fails_the_chord_and_nothing_is_sent() {
    let mut screen = Screen::new();
    let keys = [Key::Control, Key::Char('\u{1F600}'), Key::Char('c')];
    assert_eq!(
        send(&keys, &mut screen),
        Err(Error::Keyboard { source: KeyboardError::UnmappableCharacter('\u{1F600}') })
    );
    assert!(screen.batches.is_empty());
    assert!(!screen.log.iter().any(|r| matches!(r, Request::Submit(_))));
    assert!(!screen.log.iter().any(|r| matches!(r, Request::Translate(_))));
}

#[test]
fn character_the_layout_has_no_key_for_fails_the_chord() {
    let mut screen = Screen::new();
    let keys = [Key::Char('a'), Key::Char('\u{e9}'), Key::Char('b')];
    assert_eq!(
        send(&keys, &mut screen),
        Err(Error::Keyboard { source: KeyboardError::UnmappableCharacter('\u{e9}') })
    );
    assert!(screen.batches.is_empty());
    let asked: Vec<&Request> =
        screen.log.iter().filter(|r| matches!(r, Request::Translate(_))).collect();
    assert_eq!(asked, vec![&Request::Translate('a' as u16), &Request::Translate(0xE9)]);
}

#[test]
fn missing_window_fails_the_chord_before_anything_is_translated() {
    let mut screen = Screen::new();
    screen.windows.truncate(1);
    assert_eq!(
        send(&[Key::Char('a')], &mut screen),
        Err(Error::Window { source: WindowError::WindowNotFound(CHILD) })
    );
    assert_eq!(screen.log, vec![Request::EnumerateWindows]);
}

#[test]
fn hung_window_fails_the_chord() {
    let mut screen = Screen::new();
    screen.windows[1].hung = true;
    assert_eq!(
        send(&[Key::Char('a')], &mut screen),
        Err(Error::Window { source: WindowError::TargetHung })
    );
    assert!(screen.batches.is_empty());
}

#[test]
fn failed_activation_fails_the_chord() {
    let mut screen = Screen::new();
    screen.obeys = false;
    assert_eq!(
        send(&[Key::Char('a')], &mut screen),
        Err(Error::Window { source: WindowError::ForegroundAssertionFailed })
    );
    assert!(screen.batches.is_empty());
    assert_eq!(
        screen.log.iter().filter(|r| **r == Request::SetForeground(CHILD_WINDOW)).count(),
        5
    );
}

#[test]
fn desktop_without_a_foreground_window_fails_the_chord() {
    let mut screen = Screen::new();
    screen.foreground = None;
    assert_eq!(
        send(&[Key::Char('a')], &mut screen),
        Err(Error::Window { source: WindowError::NoForegroundWindow })
    );
}

#[test]
fn errors_convert_into_the_error_of_the_sending() {
    assert_eq!(
        Error::from(WindowError::TargetHung),
        Error::Window { source: WindowError::TargetHung }
    );
    assert_eq!(
        Error::from(KeyboardError::UnmappableCharacter('x')),
        Error::Keyboard { source: KeyboardError::UnmappableCharacter('x') }
    );
}

#[test]
fn sending_ends_within_its_bound_of_replies() {
    let mut screen = Screen::new();
    screen.obeys = false;
    let keys = [Key::Char('a'), Key::Char('b'), Key::Char('c')];
    let _ = send(&keys, &mut screen);
    assert!(screen.log.len() <= 4 * 5 + 13 + keys.len() + 1);

    let mut screen = Screen::new();
    assert_eq!(send(&keys, &mut screen), Ok(()));
    assert!(screen.log.len() <= 4 * 5 + 13 + keys.len() + 1);
}

#[test]
fn ended_sending_stays_ended() {
    let mut screen = Screen::new();
    let mut sender = Innerput::new().send_chord(&[Key::Enter], CHILD);
    assert_eq!(run_sender(&mut sender, &mut screen), Ok(()));
    assert_eq!(sender.advance(&Reply::Done), Step::Finished(Ok(())));
    assert_eq!(sender.advance(&Reply::Scan(0x41)), Step::Finished(Ok(())));
    assert_eq!(sender.pending(), Step::Finished(Ok(())));
    assert_eq!(screen.batches.len(), 1);
}

#[test]
fn backend_sends_through_its_trait() {
    let backend = Innerput::default();
    let mut screen = Screen::new();
    let mut sender = Keyboard::send_chord(&backend, &[Key::Tab], CHILD);
    let mut step = Keyboard::pending(&backend, &sender);
    let mut result = None;
    for _ in 0..1000 {
        match step {
            Step::Perform(request) => {
                let reply = screen.perform(&request);
                step = Keyboard::advance(&backend, &mut sender, &reply);
            }
            Step::Finished(ended) => {
                result = Some(ended);
                break;
            }
        }
    }
    assert_eq!(result, Some(Ok(())));
    assert_eq!(screen.batches, vec![vec![press(0x09), release(0x09)]]);
    assert_eq!(sender.activation().tries(), 1);
}

#[test]
fn replayed_replies_send_the_same_batch() {
    let child = shown(CHILD_WINDOW, CHILD, 22);
    let replies = [
        Reply::Windows(vec![shown(SHELL_WINDOW, 1, 11), child]),
        Reply::Window(Some(child)),
        Reply::Scan(0x0043),
    ];
    let mut sender = Innerput::new().send_chord(&[Key::Control, Key::Char('c')], CHILD);
    assert_eq!(
        sender.replay(&replies[..2]),
        Step::Perform(Request::Translate('c' as u16))
    );
    assert_eq!(
        sender.replay(&replies[2..]),
        Step::Perform(Request::Submit(vec![
            press(0x11),
            press(0x43),
            release(0x11),
            release(0x43)
        ]))
    );
    assert_eq!(sender.replay(&[Reply::Done, Reply::Done]), Step::Finished(Ok(())));
}
