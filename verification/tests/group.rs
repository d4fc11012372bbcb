use redo::group::Group;
use redo::record::Record;
use redo::{Command, Merge};

struct Add(char);

impl Command<String> for Add {
    type Error = &'static str;

    fn apply(&mut self, s: &mut String) -> Result<(), Self::Error> {
        s.push(self.0);
        Ok(())
    }

    fn undo(&mut self, s: &mut String) -> Result<(), Self::Error> {
        self.0 = s.pop().ok_or("`s` is empty")?;
        Ok(())
    }

    fn redo(&mut self, s: &mut String) -> Result<(), Self::Error> {
        s.push(self.0);
        Ok(())
    }

    fn merge(&mut self, command: Self) -> Merge<Self> {
        Merge::No(command)
    }
}

#[test]
fn routes_to_active_record() {
    let mut group: Group<String, Record<String, Add>> = Group::new();
    assert!(group.is_empty());
    assert!(group.apply(Add('x')).is_none());
    assert!(group.undo().is_none());
    assert!(group.is_saved().is_none());

    group.insert("left".to_string(), Record::new(String::new()));
    group.insert("right".to_string(), Record::new(String::new()));
    assert_eq!(group.len(), 2);

    assert!(group.set("left".to_string()).is_none());
    assert!(group.apply(Add('a')).unwrap().is_ok());
    assert!(group.apply(Add('b')).unwrap().is_ok());

    assert!(group.set("right".to_string()).is_none());
    assert!(group.apply(Add('z')).unwrap().is_ok());
    assert_eq!(group.get().unwrap().as_receiver(), "z");

    assert!(group.set("left".to_string()).is_none());
    assert_eq!(group.get().unwrap().as_receiver(), "ab");
    assert!(group.undo().unwrap().is_ok());
    assert_eq!(group.get().unwrap().as_receiver(), "a");
    assert!(group.redo().unwrap().is_ok());
    assert_eq!(group.get().unwrap().as_receiver(), "ab");

    // An unknown key is rejected and handed back.
    assert_eq!(group.set("middle".to_string()), Some("middle".to_string()));

    group.unset();
    assert!(group.get().is_none());
}

#[test]
fn insert_replaces_and_remove_drops() {
    let mut group: Group<String, Record<String, Add>> = Group::new();
    assert!(group.insert("doc".to_string(), Record::new(String::new())).is_none());
    let mut other: Record<String, Add> = Record::new(String::new());
    assert!(other.apply(Add('q')).is_ok());
    let previous = group.insert("doc".to_string(), other).unwrap();
    assert_eq!(previous.as_receiver(), "");
    assert_eq!(group.len(), 1);

    assert!(group.remove(&"missing".to_string()).is_none());
    let removed = group.remove(&"doc".to_string()).unwrap();
    assert_eq!(removed.as_receiver(), "q");
    assert!(group.is_empty());
}

#[test]
fn removing_active_unsets() {
    let mut group: Group<u64, Record<String, Add>> = Group::new();
    group.insert(1, Record::new(String::new()));
    group.insert(2, Record::new(String::new()));
    group.set(2).map(|_| panic!("key 2 exists"));
    group.remove(&2).unwrap();
    assert!(group.get().is_none());
    // Removing an entry below the active one keeps the active record.
    group.insert(3, Record::new(String::new()));
    group.set(3);
    assert!(group.apply(Add('x')).unwrap().is_ok());
    group.remove(&1).unwrap();
    assert_eq!(group.get().unwrap().as_receiver(), "x");
}

#[test]
fn group_saved_state_and_text() {
    let mut group: Group<u64, Record<String, Add>> = Group::new();
    group.insert(7, Record::new(String::new()));
    group.set(7);
    assert_eq!(group.is_saved(), Some(true));
    assert!(group.apply(Add('a')).unwrap().is_ok());
    assert_eq!(group.is_saved(), Some(false));
    group.set_saved().unwrap();
    assert_eq!(group.is_saved(), Some(true));
    group.set_unsaved().unwrap();
    assert_eq!(group.is_saved(), Some(false));
    assert_eq!(
        group.to_undo_string(|c: &Add| format!("Add({})", c.0)),
        Some("Add(a)".to_string())
    );
    assert_eq!(group.to_redo_string(|c: &Add| format!("Add({})", c.0)), None);
    assert_eq!(group.records().len(), 1);
}

#[test]
fn activity_changes_are_recorded() {
    let mut group: Group<u64, Record<String, Add>> =
        Group::<u64, Record<String, Add>>::builder().signals(true).build();
    group.insert(1, Record::new(String::new()));
    group.insert(2, Record::new(String::new()));
    group.set(1);  // activating from nothing, nothing recorded
    group.set(1);  // no change, nothing recorded
    group.set(2);
    group.unset();
    group.unset();  // already unset, nothing recorded
    let events = group.take_signals().unwrap();
    assert_eq!(events, vec![Some(1), None]);
}
