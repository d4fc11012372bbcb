use redo::record::Record;
use redo::{Command, Merge, Signal, Slot};

struct Add(char);

impl Command<String> for Add {
    type Error = &'static str;

    fn apply(&mut self, s: &mut String) -> Result<(), Self::Error> {
        s.push(self.0);
        Ok(())
    }

    fn undo(&mut self, s: &mut String) -> Result<(), Self::Error> {
        self.0 = s.pop().ok_or("`s` is empty")?;
        Ok(())
    }

    fn redo(&mut self, s: &mut String) -> Result<(), Self::Error> {
        s.push(self.0);
        Ok(())
    }

    fn merge(&mut self, command: Self) -> Merge<Self> {
        Merge::No(command)
    }
}

#[test]
fn set_limit() {
    let mut record: Record<String, Add> = Record::new(String::new());
    assert!(record.apply(Add('a')).is_ok());
    assert!(record.apply(Add('b')).is_ok());
    assert!(record.apply(Add('c')).is_ok());
    assert!(record.apply(Add('d')).is_ok());
    assert!(record.apply(Add('e')).is_ok());

    record.set_limit(3);
    assert_eq!(record.current(), 3);
    assert_eq!(record.limit(), 3);
    assert_eq!(record.len(), 3);
    assert!(record.can_undo());
    assert!(!record.can_redo());

    record.clear();
    assert_eq!(record.set_limit(5), 5);
    assert!(record.apply(Add('a')).is_ok());
    assert!(record.apply(Add('b')).is_ok());
    assert!(record.apply(Add('c')).is_ok());
    assert!(record.apply(Add('d')).is_ok());
    assert!(record.apply(Add('e')).is_ok());

    assert!(record.undo().unwrap().is_ok());
    assert!(record.undo().unwrap().is_ok());
    assert!(record.undo().unwrap().is_ok());

    record.set_limit(2);
    assert_eq!(record.current(), 0);
    assert_eq!(record.limit(), 3);
    assert_eq!(record.len(), 3);
    assert!(!record.can_undo());
    assert!(record.can_redo());

    assert!(record.redo().unwrap().is_ok());
    assert!(record.redo().unwrap().is_ok());
    assert!(record.redo().unwrap().is_ok());

    record.clear();
    assert_eq!(record.set_limit(5), 5);
    assert!(record.apply(Add('a')).is_ok());
    assert!(record.apply(Add('b')).is_ok());
    assert!(record.apply(Add('c')).is_ok());
    assert!(record.apply(Add('d')).is_ok());
    assert!(record.apply(Add('e')).is_ok());

    assert!(record.undo().unwrap().is_ok());
    assert!(record.undo().unwrap().is_ok());
    assert!(record.undo().unwrap().is_ok());
    assert!(record.undo().unwrap().is_ok());
    assert!(record.undo().unwrap().is_ok());

    record.set_limit(2);
    assert_eq!(record.current(), 0);
    assert_eq!(record.limit(), 5);
    assert_eq!(record.len(), 5);
    assert!(!record.can_undo());
    assert!(record.can_redo());

    assert!(record.redo().unwrap().is_ok());
    assert!(record.redo().unwrap().is_ok());
    assert!(record.redo().unwrap().is_ok());
    assert!(record.redo().unwrap().is_ok());
    assert!(record.redo().unwrap().is_ok());
}

#[test]
fn go_to() {
    let mut record: Record<String, Add> = Record::new(String::new());
    assert!(record.apply(Add('a')).is_ok());
    assert!(record.apply(Add('b')).is_ok());
    assert!(record.apply(Add('c')).is_ok());
    assert!(record.apply(Add('d')).is_ok());
    assert!(record.apply(Add('e')).is_ok());

    assert!(record.go_to(0).unwrap().is_ok());
    assert_eq!(record.current(), 0);
    assert_eq!(record.as_receiver(), "");
    assert!(record.go_to(5).unwrap().is_ok());
    assert_eq!(record.current(), 5);
    assert_eq!(record.as_receiver(), "abcde");
    assert!(record.go_to(1).unwrap().is_ok());
    assert_eq!(record.current(), 1);
    assert_eq!(record.as_receiver(), "a");
    assert!(record.go_to(4).unwrap().is_ok());
    assert_eq!(record.current(), 4);
    assert_eq!(record.as_receiver(), "abcd");
    assert!(record.go_to(2).unwrap().is_ok());
    assert_eq!(record.current(), 2);
    assert_eq!(record.as_receiver(), "ab");
    assert!(record.go_to(3).unwrap().is_ok());
    assert_eq!(record.current(), 3);
    assert_eq!(record.as_receiver(), "abc");
    assert!(record.go_to(6).is_none());
    assert_eq!(record.current(), 3);
}

#[test]
fn apply_undo_redo_roundtrip() {
    let mut record: Record<String, Add> = Record::new(String::new());
    assert!(record.apply(Add('a')).is_ok());
    assert!(record.apply(Add('b')).is_ok());
    assert!(record.apply(Add('c')).is_ok());
    assert_eq!(record.as_receiver(), "abc");
    assert!(record.undo().unwrap().is_ok());
    assert!(record.undo().unwrap().is_ok());
    assert!(record.undo().unwrap().is_ok());
    assert_eq!(record.as_receiver(), "");
    assert_eq!(record.current(), 0);
    assert!(record.undo().is_none());
    assert!(record.redo().unwrap().is_ok());
    assert!(record.redo().unwrap().is_ok());
    assert!(record.redo().unwrap().is_ok());
    assert_eq!(record.as_receiver(), "abc");
    assert!(record.redo().is_none());
}

#[test]
fn limit_evicts_oldest() {
    let mut record: Record<String, Add> =
        Record::<String, Add>::builder().limit(3).build(String::new());
    assert!(record.apply(Add('a')).is_ok());
    assert!(record.apply(Add('b')).is_ok());
    assert!(record.apply(Add('c')).is_ok());
    assert!(record.apply(Add('d')).is_ok());
    assert!(record.apply(Add('e')).is_ok());
    assert_eq!(record.len(), 3);
    assert_eq!(record.current(), 3);
    assert_eq!(record.as_receiver(), "abcde");
    assert!(record.undo().unwrap().is_ok());
    assert!(record.undo().unwrap().is_ok());
    assert!(record.undo().unwrap().is_ok());
    assert_eq!(record.as_receiver(), "ab");
    assert!(record.undo().is_none());
}

#[test]
fn apply_truncates_redo_suffix() {
    let mut record: Record<String, Add> = Record::new(String::new());
    assert!(record.apply(Add('a')).is_ok());
    assert!(record.apply(Add('b')).is_ok());
    assert!(record.apply(Add('c')).is_ok());
    assert!(record.undo().unwrap().is_ok());
    assert!(record.undo().unwrap().is_ok());
    // Applying while the cursor is below the end discards the suffix.
    assert!(record.apply(Add('z')).is_ok());
    assert_eq!(record.len(), 2);
    assert_eq!(record.current(), 2);
    assert_eq!(record.as_receiver(), "az");
    assert!(record.redo().is_none());
}

#[test]
fn signal_edges() {
    let mut record: Record<String, Add> = Record::new(String::new());
    record.connect(Slot::new());

    assert!(record.apply(Add('a')).is_ok());
    assert!(record.apply(Add('b')).is_ok());
    assert!(record.undo().unwrap().is_ok());
    assert!(record.undo().unwrap().is_ok());
    assert!(record.redo().unwrap().is_ok());

    let slot = record.disconnect().unwrap();
    let expected = vec![
        // First apply: cursor moves, undo becomes possible, the saved
        // state is left.
        Signal::Cursor { old: 0, new: 1 },
        Signal::Undo(true),
        Signal::Saved(false),
        // Second apply: nothing flips, only the cursor is reported.
        Signal::Cursor { old: 1, new: 2 },
        // First undo: redo becomes possible.
        Signal::Cursor { old: 2, new: 1 },
        Signal::Redo(true),
        // Second undo: undo stops being possible, the saved state is
        // reached again.
        Signal::Cursor { old: 1, new: 0 },
        Signal::Undo(false),
        Signal::Saved(true),
        // Redo: undo becomes possible again, the saved state is left.
        Signal::Cursor { old: 0, new: 1 },
        Signal::Undo(true),
        Signal::Saved(false),
    ];
    assert_eq!(slot.signals, expected);
}

#[test]
fn go_to_twice_is_noop() {
    let mut record: Record<String, Add> = Record::new(String::new());
    assert!(record.apply(Add('a')).is_ok());
    assert!(record.apply(Add('b')).is_ok());
    assert!(record.apply(Add('c')).is_ok());
    assert!(record.go_to(1).unwrap().is_ok());
    record.connect(Slot::new());
    assert!(record.go_to(1).unwrap().is_ok());
    let slot = record.disconnect().unwrap();
    assert!(slot.signals.is_empty());
    assert_eq!(record.current(), 1);
    assert_eq!(record.as_receiver(), "a");
}

#[test]
fn saved_state() {
    let mut record: Record<String, Add> = Record::new(String::new());
    assert!(record.is_saved());
    assert!(record.apply(Add('a')).is_ok());
    assert!(!record.is_saved());
    assert!(record.apply(Add('b')).is_ok());
    record.set_saved(true);
    assert!(record.is_saved());
    assert!(record.apply(Add('c')).is_ok());
    assert!(!record.is_saved());
    assert!(record.revert().unwrap().is_ok());
    assert!(record.is_saved());
    assert_eq!(record.as_receiver(), "ab");
    record.set_saved(false);
    assert!(!record.is_saved());
    assert!(record.revert().is_none());
}

#[test]
fn extend_applies_in_order() {
    let mut record: Record<String, Add> = Record::new(String::new());
    assert!(record.extend(vec![Add('a'), Add('b'), Add('c'), Add('d')]).is_ok());
    assert_eq!(record.as_receiver(), "abcd");
    assert_eq!(record.current(), 4);
}

#[test]
fn command_text() {
    let mut record: Record<String, Add> = Record::new(String::new());
    assert!(record.apply(Add('a')).is_ok());
    assert!(record.apply(Add('b')).is_ok());
    assert!(record.undo().unwrap().is_ok());
    assert_eq!(
        record.to_undo_string(|c: &Add| format!("Add({})", c.0)),
        Some("Add(a)".to_string())
    );
    assert_eq!(
        record.to_redo_string(|c: &Add| format!("Add({})", c.0)),
        Some("Add(b)".to_string())
    );
    assert!(record.go_to(2).unwrap().is_ok());
    assert_eq!(record.to_redo_string(|c: &Add| format!("Add({})", c.0)), None);
}
