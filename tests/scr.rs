use lineedit::{cursor_goto, Position, Screen, Size, WindowManager};

struct RecordingScreen {
    calls: Vec<(String, Position)>,
    size: Size,
}

impl RecordingScreen {
    fn with_size(size: Size) -> Self {
        RecordingScreen { calls: Vec::new(), size }
    }
}

impl Screen for RecordingScreen {
    fn put_at(&mut self, s: &str, pos: Position) -> std::io::Result<()> {
        self.calls.push((s.to_string(), pos));
        Ok(())
    }
    fn flush(&mut self) -> std::io::Result<()> {
        Ok(())
    }
    fn size(&self) -> std::io::Result<Size> {
        Ok(self.size)
    }
}

fn call(s: &str, row: u16, col: u16) -> (String, Position) {
    (s.to_string(), Position { row, col })
}

#[test]
fn test_put_at_window_origin() {
    let mut mock = RecordingScreen::with_size(Size { rows: 0, cols: 0 });
    {
        let mut wm = WindowManager::new(&mut mock);
        let wid = wm.create(Position { row: 0, col: 0 }, Size { rows: 10, cols: 10 });
        {
            let mut win = wm.borrow_mut(wid).unwrap();
            win.put_at("abc", Position { row: 0, col: 0 }).unwrap();
            win.put_at("def", Position { row: 2, col: 5 }).unwrap();
        }
    }
    assert_eq!(mock.calls, vec![call("abc", 0, 0), call("def", 2, 5)]);
}

#[test]
fn test_put_at_window_offset() {
    let mut mock = RecordingScreen::with_size(Size { rows: 0, cols: 0 });
    {
        let mut wm = WindowManager::new(&mut mock);
        let wid = wm.create(Position { row: 2, col: 4 }, Size { rows: 10, cols: 10 });
        let mut win = wm.borrow_mut(wid).unwrap();
        win.put_at("abc", Position { row: 0, col: 0 }).unwrap();
        win.put_at("abc", Position { row: 2, col: 3 }).unwrap();
    }
    assert_eq!(mock.calls, vec![call("abc", 2, 4), call("abc", 4, 7)]);
}

#[test]
fn test_blank_window_origin() {
    let mut mock = RecordingScreen::with_size(Size { rows: 0, cols: 0 });
    {
        let mut wm = WindowManager::new(&mut mock);
        let wid = wm.create(Position { row: 0, col: 0 }, Size { rows: 2, cols: 3 });
        let mut win = wm.borrow_mut(wid).unwrap();
        win.blank().unwrap();
    }
    assert_eq!(
        mock.calls,
        vec![
            call(" ", 0, 0),
            call(" ", 0, 1),
            call(" ", 0, 2),
            call(" ", 1, 0),
            call(" ", 1, 1),
            call(" ", 1, 2),
        ]
    );
}

#[test]
fn test_blank_window_offset() {
    let mut mock = RecordingScreen::with_size(Size { rows: 0, cols: 0 });
    {
        let mut wm = WindowManager::new(&mut mock);
        let wid = wm.create(Position { row: 2, col: 4 }, Size { rows: 3, cols: 2 });
        let mut win = wm.borrow_mut(wid).unwrap();
        win.blank().unwrap();
    }
    assert_eq!(
        mock.calls,
        vec![
            call(" ", 2, 4),
            call(" ", 2, 5),
            call(" ", 3, 4),
            call(" ", 3, 5),
            call(" ", 4, 4),
            call(" ", 4, 5),
        ]
    );
}

#[test]
fn create_returns_consecutive_numbers() {
    let mut mock = RecordingScreen::with_size(Size { rows: 24, cols: 80 });
    let mut wm = WindowManager::new(&mut mock);
    assert_eq!(0, wm.create(Position { row: 0, col: 0 }, Size { rows: 1, cols: 1 }));
    assert_eq!(1, wm.create(Position { row: 3, col: 7 }, Size { rows: 2, cols: 5 }));
    let full = wm.create_full().unwrap();
    assert_eq!(2, full);
    {
        let win = wm.borrow_mut(1).unwrap();
        assert_eq!(Position { row: 3, col: 7 }, win.position);
        assert_eq!(Size { rows: 2, cols: 5 }, win.size);
    }
    {
        let win = wm.borrow_mut(full).unwrap();
        assert_eq!(Position { row: 0, col: 0 }, win.position);
        assert_eq!(Size { rows: 24, cols: 80 }, win.size);
    }
    assert!(wm.borrow_mut(3).is_none());
}

#[test]
fn size_contains() {
    let size = Size { rows: 24, cols: 80 };
    assert!(size.contains(&Position { row: 0, col: 0 }));
    assert!(size.contains(&Position { row: 23, col: 79 }));
    assert!(!size.contains(&Position { row: 24, col: 0 }));
    assert!(!size.contains(&Position { row: 0, col: 80 }));
}

#[test]
fn position_offset() {
    let p = Position { row: 2, col: 4 }.offset(Position { row: 2, col: 3 });
    assert_eq!(Position { row: 4, col: 7 }, p);
}

#[test]
fn cursor_goto_is_one_based() {
    assert_eq!("\x1b[1;1H", cursor_goto(Position { row: 0, col: 0 }));
    assert_eq!("\x1b[11;6H", cursor_goto(Position { row: 10, col: 5 }));
    assert_eq!("\x1b[24;80H", cursor_goto(Position { row: 23, col: 79 }));
}

#[test]
fn cell_at_counts_row_by_row() {
    let size = Size { rows: 3, cols: 2 };
    assert_eq!(Position { row: 0, col: 0 }, size.cell_at(0));
    assert_eq!(Position { row: 0, col: 1 }, size.cell_at(1));
    assert_eq!(Position { row: 1, col: 0 }, size.cell_at(2));
    assert_eq!(Position { row: 2, col: 1 }, size.cell_at(5));
}

#[test]
fn blank_empty_window_writes_nothing() {
    let mut mock = RecordingScreen::with_size(Size { rows: 0, cols: 0 });
    {
        let mut wm = WindowManager::new(&mut mock);
        let wid = wm.create(Position { row: 2, col: 4 }, Size { rows: 0, cols: 5 });
        let mut win = wm.borrow_mut(wid).unwrap();
        assert!(win.blank().is_ok());
    }
    assert!(mock.calls.is_empty());
}
