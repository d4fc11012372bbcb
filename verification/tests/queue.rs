use redo::record::Record;
use redo::{Command, Merge};

struct Add(char);

impl Command<String> for Add {
    type Error = &'static str;

    fn apply(&mut self, s: &mut String) -> Result<(), Self::Error> {
        s.push(self.0);
        Ok(())
    }

    fn undo(&mut self, s: &mut String) -> Result<(), Self::Error> {
        self.0 = s.pop().ok_or("`s` is empty")?;
        Ok(())
    }

    fn redo(&mut self, s: &mut String) -> Result<(), Self::Error> {
        s.push(self.0);
        Ok(())
    }

    fn merge(&mut self, command: Self) -> Merge<Self> {
        Merge::No(command)
    }
}

#[test]
fn queue_commit() {
    let record: Record<String, Add> = Record::new(String::new());
    let mut queue = record.queue();
    queue.redo();
    queue.redo();
    queue.redo();
    queue.queue();
    queue.undo();
    queue.undo();
    queue.undo();
    queue.queue();
    queue.apply(Add('a'));
    queue.apply(Add('b'));
    queue.apply(Add('c'));
    assert_eq!(queue.as_receiver(), "");
    assert!(queue.commit().is_ok());
    assert_eq!(queue.as_receiver(), "abc");
    assert!(queue.commit().is_ok());
    assert_eq!(queue.as_receiver(), "");
    assert!(queue.commit().is_ok());
    let record = queue.into_inner();
    assert_eq!(record.as_receiver(), "abc");
}

#[test]
fn queue_cancel() {
    let record: Record<String, Add> = Record::new(String::new());
    let mut queue = record.queue();
    queue.apply(Add('a'));
    queue.apply(Add('b'));
    queue.cancel();
    queue.apply(Add('c'));
    assert!(queue.commit().is_ok());
    let record = queue.into_inner();
    assert_eq!(record.as_receiver(), "c");
    assert_eq!(record.len(), 1);
}

#[test]
fn queue_go_to() {
    let record: Record<String, Add> = Record::new(String::new());
    let mut queue = record.queue();
    queue.apply(Add('a'));
    queue.apply(Add('b'));
    queue.apply(Add('c'));
    queue.go_to(1);
    assert!(queue.commit().is_ok());
    let record = queue.into_inner();
    assert_eq!(record.as_receiver(), "a");
    assert_eq!(record.current(), 1);
    assert_eq!(record.len(), 3);
}
