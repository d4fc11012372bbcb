use redo::record::Record;
use redo::{Command, Merge};

struct Add(char);

impl Command<String> for Add {
    type Error = &'static str;

    fn apply(&mut self, s: &mut String) -> Result<(), Self::Error> {
        s.push(self.0);
        Ok(())
    }

    fn undo(&mut self, s: &mut String) -> Result<(), Self::Error> {
        self.0 = s.pop().ok_or("`s` is empty")?;
        Ok(())
    }

    fn redo(&mut self, s: &mut String) -> Result<(), Self::Error> {
        s.push(self.0);
        Ok(())
    }

    fn merge(&mut self, command: Self) -> Merge<Self> {
        Merge::No(command)
    }
}

#[test]
fn checkpoint_commit() {
    let record: Record<String, Add> = Record::new(String::new());
    let mut cp = record.checkpoint();
    assert!(cp.apply(Add('a')).is_ok());
    assert!(cp.apply(Add('b')).is_ok());
    assert!(cp.apply(Add('c')).is_ok());
    assert_eq!(cp.as_receiver(), "abc");
    cp.checkpoint();
    assert!(cp.apply(Add('d')).is_ok());
    assert!(cp.apply(Add('e')).is_ok());
    assert!(cp.apply(Add('f')).is_ok());
    assert_eq!(cp.as_receiver(), "abcdef");
    cp.checkpoint();
    assert!(cp.apply(Add('g')).is_ok());
    assert!(cp.apply(Add('h')).is_ok());
    assert!(cp.apply(Add('i')).is_ok());
    assert_eq!(cp.as_receiver(), "abcdefghi");
    cp.commit();
    cp.commit();
    cp.commit();
    let record = cp.into_inner();
    assert_eq!(record.as_receiver(), "abcdefghi");
}

#[test]
fn cancel() {
    let record: Record<String, Add> = Record::new(String::new());
    let mut cp = record.checkpoint();
    assert!(cp.apply(Add('a')).is_ok());
    assert!(cp.apply(Add('b')).is_ok());
    assert!(cp.apply(Add('c')).is_ok());
    cp.checkpoint();
    assert!(cp.apply(Add('d')).is_ok());
    assert!(cp.apply(Add('e')).is_ok());
    assert!(cp.apply(Add('f')).is_ok());
    cp.checkpoint();
    assert!(cp.apply(Add('g')).is_ok());
    assert!(cp.apply(Add('h')).is_ok());
    assert!(cp.apply(Add('i')).is_ok());
    assert_eq!(cp.as_receiver(), "abcdefghi");
    assert!(cp.cancel().is_ok());
    assert_eq!(cp.as_receiver(), "abcdef");
    assert!(cp.cancel().is_ok());
    assert_eq!(cp.as_receiver(), "abc");
    assert!(cp.cancel().is_ok());
    let record = cp.into_inner();
    assert_eq!(record.as_receiver(), "");
}

#[test]
fn cancel_restores_mixed_calls() {
    let mut record: Record<String, Add> = Record::new(String::new());
    assert!(record.apply(Add('a')).is_ok());
    assert!(record.apply(Add('b')).is_ok());
    assert!(record.undo().unwrap().is_ok());
    assert_eq!(record.as_receiver(), "a");
    assert_eq!(record.current(), 1);

    let mut cp = record.checkpoint();
    assert!(cp.apply(Add('c')).is_ok());
    assert!(cp.apply(Add('d')).is_ok());
    assert!(cp.undo().unwrap().is_ok());
    assert!(cp.redo().unwrap().is_ok());
    assert!(cp.go_to(1).unwrap().is_ok());
    assert_eq!(cp.as_receiver(), "a");
    assert!(cp.cancel().is_ok());
    let record = cp.into_inner();
    assert_eq!(record.as_receiver(), "a");
    assert_eq!(record.current(), 1);
    assert_eq!(record.len(), 2);
}

#[test]
fn cancel_restores_apply_undo() {
    // A checkpoint around two applies and one undo, cancelled, leaves
    // the receiver and the cursor as they were before it was opened.
    let mut record: Record<String, Add> = Record::new(String::new());
    assert!(record.apply(Add('x')).is_ok());
    let mut cp = record.checkpoint();
    assert!(cp.apply(Add('a')).is_ok());
    assert!(cp.apply(Add('b')).is_ok());
    assert!(cp.undo().unwrap().is_ok());
    assert_eq!(cp.as_receiver(), "xa");
    assert!(cp.cancel().is_ok());
    let record = cp.into_inner();
    assert_eq!(record.as_receiver(), "x");
    assert_eq!(record.current(), 1);
}

#[test]
fn cancel_restores_truncated_suffix() {
    let mut record: Record<String, Add> = Record::new(String::new());
    assert!(record.apply(Add('a')).is_ok());
    assert!(record.apply(Add('b')).is_ok());
    assert!(record.undo().unwrap().is_ok());

    let mut cp = record.checkpoint();
    // This apply truncates the redoable suffix holding 'b'.
    assert!(cp.apply(Add('z')).is_ok());
    assert_eq!(cp.as_receiver(), "az");
    assert!(cp.cancel().is_ok());
    let mut record = cp.into_inner();
    assert_eq!(record.as_receiver(), "a");
    assert_eq!(record.len(), 2);
    // The suffix is back: 'b' can be redone again.
    assert!(record.redo().unwrap().is_ok());
    assert_eq!(record.as_receiver(), "ab");
}
