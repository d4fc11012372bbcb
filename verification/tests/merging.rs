use redo::record::Record;
use redo::{Command, Merge};

struct Add(String);

impl Command<String> for Add {
    type Error = &'static str;

    fn apply(&mut self, s: &mut String) -> Result<(), Self::Error> {
        s.push_str(&self.0);
        Ok(())
    }

    fn undo(&mut self, s: &mut String) -> Result<(), Self::Error> {
        let len = s.len() - self.0.len();
        s.truncate(len);
        Ok(())
    }

    fn redo(&mut self, s: &mut String) -> Result<(), Self::Error> {
        s.push_str(&self.0);
        Ok(())
    }

    fn merge(&mut self, command: Self) -> Merge<Self> {
        self.0.push_str(&command.0);
        Merge::Yes
    }
}

/// A push or a pop of one character; a pop annuls a preceding push of
/// the same character.
struct Toggle {
    push: bool,
    c: char,
}

impl Command<String> for Toggle {
    type Error = &'static str;

    fn apply(&mut self, s: &mut String) -> Result<(), Self::Error> {
        if self.push {
            s.push(self.c);
        } else {
            self.c = s.pop().ok_or("`s` is empty")?;
        }
        Ok(())
    }

    fn undo(&mut self, s: &mut String) -> Result<(), Self::Error> {
        if self.push {
            s.pop().ok_or("`s` is empty")?;
        } else {
            s.push(self.c);
        }
        Ok(())
    }

    fn redo(&mut self, s: &mut String) -> Result<(), Self::Error> {
        self.apply(s)
    }

    fn merge(&mut self, command: Self) -> Merge<Self> {
        if self.push && !command.push && self.c == command.c {
            Merge::Annul
        } else {
            Merge::No(command)
        }
    }
}

#[test]
fn merged_applies_undo_as_one() {
    let mut record: Record<String, Add> = Record::new(String::new());
    // The `a`, `b`, and `c` commands are merged.
    assert!(record.apply(Add("a".to_string())).is_ok());
    assert!(record.apply(Add("b".to_string())).is_ok());
    assert!(record.apply(Add("c".to_string())).is_ok());
    assert_eq!(record.len(), 1);
    assert_eq!(record.as_receiver(), "abc");
    // Calling undo once will undo all the merged commands.
    assert!(record.undo().unwrap().is_ok());
    assert_eq!(record.as_receiver(), "");
    // Calling redo once will redo all the merged commands.
    assert!(record.redo().unwrap().is_ok());
    assert_eq!(record.as_receiver(), "abc");
}

#[test]
fn merge_skipped_on_saved_state() {
    let mut record: Record<String, Add> = Record::new(String::new());
    assert!(record.apply(Add("a".to_string())).is_ok());
    record.set_saved(true);
    // Merging across a saved boundary is disallowed, so the saved point
    // stays addressable.
    assert!(record.apply(Add("b".to_string())).is_ok());
    assert_eq!(record.len(), 2);
    assert!(record.undo().unwrap().is_ok());
    assert!(record.is_saved());
    assert_eq!(record.as_receiver(), "a");
}

#[test]
fn annulled_pair_leaves_no_entry() {
    let mut record: Record<String, Toggle> = Record::new(String::new());
    assert!(record.apply(Toggle { push: true, c: 'x' }).is_ok());
    assert!(record.apply(Toggle { push: true, c: 'y' }).is_ok());
    assert_eq!(record.len(), 2);
    // Popping the 'y' cancels pushing it: both entries vanish.
    assert!(record.apply(Toggle { push: false, c: 'y' }).is_ok());
    assert_eq!(record.len(), 1);
    assert_eq!(record.current(), 1);
    assert_eq!(record.as_receiver(), "x");
}
