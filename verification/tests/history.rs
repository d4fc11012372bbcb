use redo::history::History;
use redo::{Command, Merge, Signal, Slot};

struct Add(char);

impl Command<String> for Add {
    type Error = &'static str;

    fn apply(&mut self, s: &mut String) -> Result<(), Self::Error> {
        s.push(self.0);
        Ok(())
    }

    fn undo(&mut self, s: &mut String) -> Result<(), Self::Error> {
        self.0 = s.pop().ok_or("`s` is empty")?;
        Ok(())
    }

    fn redo(&mut self, s: &mut String) -> Result<(), Self::Error> {
        s.push(self.0);
        Ok(())
    }

    fn merge(&mut self, command: Self) -> Merge<Self> {
        Merge::No(command)
    }
}

#[test]
fn divergent_apply_keeps_branch() {
    let mut history: History<String, Add> = History::new(String::new());
    assert!(history.apply(Add('a')).is_ok());
    assert!(history.apply(Add('b')).is_ok());
    assert!(history.apply(Add('c')).is_ok());
    assert_eq!(history.as_receiver(), "abc");
    assert!(history.undo().unwrap().is_ok());
    assert_eq!(history.as_receiver(), "ab");
    // A divergent apply: the suffix holding 'c' becomes a branch
    // instead of being discarded.
    assert!(history.apply(Add('d')).is_ok());
    assert_eq!(history.as_receiver(), "abd");
    assert_eq!(history.root(), 0);
    assert_eq!(history.branch_count(), 2);
    let branch = history.branch(1).unwrap();
    assert_eq!(branch.at, 2);
    assert_eq!(branch.entries.len(), 1);
    assert_eq!(branch.entries[0].command.0, 'c');
}

#[test]
fn go_to_switches_branches() {
    let mut history: History<String, Add> = History::new(String::new());
    assert!(history.apply(Add('a')).is_ok());
    assert!(history.apply(Add('b')).is_ok());
    assert!(history.apply(Add('c')).is_ok());
    assert!(history.undo().unwrap().is_ok());
    assert!(history.apply(Add('d')).is_ok());
    assert_eq!(history.as_receiver(), "abd");

    // Back to the old timeline, at its tip.
    assert!(history.go_to(1, 3).unwrap().is_ok());
    assert_eq!(history.as_receiver(), "abc");
    assert_eq!(history.root(), 1);
    assert_eq!(history.current(), 3);

    // And forward to the new one again.
    assert!(history.go_to(0, 3).unwrap().is_ok());
    assert_eq!(history.as_receiver(), "abd");
    assert_eq!(history.root(), 0);
    assert_eq!(history.current(), 3);

    // An unknown branch or an out-of-range cursor changes nothing.
    assert!(history.go_to(7, 0).is_none());
    assert!(history.go_to(0, 9).is_none());
    assert_eq!(history.as_receiver(), "abd");
}

#[test]
fn branch_change_reports_root() {
    let mut history: History<String, Add> = History::new(String::new());
    assert!(history.apply(Add('a')).is_ok());
    assert!(history.apply(Add('b')).is_ok());
    assert!(history.undo().unwrap().is_ok());
    assert!(history.apply(Add('c')).is_ok());
    history.connect(Slot::new());
    assert!(history.go_to(1, 2).unwrap().is_ok());
    let slot = history.disconnect().unwrap();
    assert!(slot.signals.contains(&Signal::Root { old: 0, new: 1 }));
    assert_eq!(history.as_receiver(), "ab");
}

#[test]
fn nested_branches() {
    let mut history: History<String, Add> = History::new(String::new());
    assert!(history.apply(Add('a')).is_ok());
    assert!(history.apply(Add('b')).is_ok());
    assert!(history.undo().unwrap().is_ok());
    assert!(history.apply(Add('c')).is_ok());  // branch 1 keeps 'b'
    assert!(history.undo().unwrap().is_ok());
    assert!(history.apply(Add('d')).is_ok());  // branch 2 keeps 'c'
    assert_eq!(history.as_receiver(), "ad");
    assert_eq!(history.branch_count(), 3);

    // Walk to the first timeline's tip, two divergences away.
    assert!(history.go_to(1, 2).unwrap().is_ok());
    assert_eq!(history.as_receiver(), "ab");
    assert_eq!(history.root(), 1);

    // And back to the latest one.
    assert!(history.go_to(0, 2).unwrap().is_ok());
    assert_eq!(history.as_receiver(), "ad");
}

#[test]
fn saved_marker_migrates_with_branch() {
    let mut history: History<String, Add> = History::new(String::new());
    assert!(history.apply(Add('a')).is_ok());
    assert!(history.apply(Add('b')).is_ok());
    history.set_saved(true);
    assert!(history.undo().unwrap().is_ok());
    // The saved marker sits at 2, beyond the divergence at 1: it
    // migrates into the branch that keeps the entries it refers to.
    assert!(history.apply(Add('c')).is_ok());
    assert!(!history.is_saved());
    assert_eq!(history.branch(1).unwrap().saved, Some(2));
    // Switching back to the branch brings the marker back.
    assert!(history.go_to(1, 2).unwrap().is_ok());
    assert!(history.is_saved());
    assert_eq!(history.as_receiver(), "ab");
}
