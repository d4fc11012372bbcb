use redo::record::Record;
use redo::{Command, Merge};

/// A command that pushes a character but can be told to fail either
/// direction.
struct Flaky {
    c: char,
    fail_apply: bool,
    fail_undo: bool,
}

impl Command<String> for Flaky {
    type Error = &'static str;

    fn apply(&mut self, s: &mut String) -> Result<(), Self::Error> {
        if self.fail_apply {
            Err("apply refused")
        } else {
            s.push(self.c);
            Ok(())
        }
    }

    fn undo(&mut self, s: &mut String) -> Result<(), Self::Error> {
        if self.fail_undo {
            Err("undo refused")
        } else {
            self.c = s.pop().ok_or("`s` is empty")?;
            Ok(())
        }
    }

    fn redo(&mut self, s: &mut String) -> Result<(), Self::Error> {
        self.apply(s)
    }

    fn merge(&mut self, command: Self) -> Merge<Self> {
        Merge::No(command)
    }
}

fn ok(c: char) -> Flaky {
    Flaky { c, fail_apply: false, fail_undo: false }
}

#[test]
fn failed_apply_is_not_logged() {
    let mut record: Record<String, Flaky> = Record::new(String::new());
    assert!(record.apply(ok('a')).is_ok());
    let err = match record.apply(Flaky { c: 'b', fail_apply: true, fail_undo: false }) {
        Err(e) => e,
        Ok(()) => panic!("the apply should have failed"),
    };
    assert_eq!(err.command().c, 'b');
    assert_eq!(record.len(), 1);
    assert_eq!(record.current(), 1);
    assert_eq!(record.as_receiver(), "a");
    let rejected = err.into_command();
    assert_eq!(rejected.c, 'b');
}

#[test]
fn failed_undo_evicts_entry() {
    let mut record: Record<String, Flaky> = Record::new(String::new());
    assert!(record.apply(ok('a')).is_ok());
    assert!(record.apply(Flaky { c: 'b', fail_apply: false, fail_undo: true }).is_ok());
    assert_eq!(record.len(), 2);
    // The offending entry is evicted: its reversibility is no longer
    // trusted. The receiver keeps whatever the failed undo left.
    let err = match record.undo().unwrap() {
        Err(e) => e,
        Ok(()) => panic!("the undo should have failed"),
    };
    assert_eq!(err.command().c, 'b');
    assert_eq!(record.len(), 1);
    assert_eq!(record.current(), 1);
    assert_eq!(record.as_receiver(), "ab");
    // The remaining entry still undoes.
    assert!(record.undo().unwrap().is_ok());
    assert_eq!(record.current(), 0);
}

#[test]
fn failed_step_stops_go_to() {
    let mut record: Record<String, Flaky> = Record::new(String::new());
    assert!(record.apply(ok('a')).is_ok());
    assert!(record.apply(Flaky { c: 'b', fail_apply: false, fail_undo: true }).is_ok());
    assert!(record.apply(ok('c')).is_ok());
    // Walking to 0 undoes 'c', then stops when undoing 'b' fails.
    let err = match record.go_to(0).unwrap() {
        Err(e) => e,
        Ok(()) => panic!("the walk should have stopped"),
    };
    assert_eq!(err.command().c, 'b');
    assert_eq!(record.current(), 1);
    assert_eq!(record.as_receiver(), "ab");
}
