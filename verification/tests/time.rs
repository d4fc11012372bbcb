use redo::record::Record;
use redo::{Command, Merge};

struct Add(char);

impl Command<String> for Add {
    type Error = &'static str;

    fn apply(&mut self, s: &mut String) -> Result<(), Self::Error> {
        s.push(self.0);
        Ok(())
    }

    fn undo(&mut self, s: &mut String) -> Result<(), Self::Error> {
        self.0 = s.pop().ok_or("`s` is empty")?;
        Ok(())
    }

    fn redo(&mut self, s: &mut String) -> Result<(), Self::Error> {
        s.push(self.0);
        Ok(())
    }

    fn merge(&mut self, command: Self) -> Merge<Self> {
        Merge::No(command)
    }
}

/// The wall clock in milliseconds since the epoch, as the engine reads it.
fn clock_millis() -> i64 {
    match std::time::SystemTime::now().duration_since(std::time::UNIX_EPOCH) {
        Ok(since) => since.as_millis() as i64,
        Err(before) => -(before.duration().as_millis() as i64),
    }
}

/// Waits until the wall clock has moved measurably past `from`, so the
/// surrounding entries get distinct timestamps.
fn next_millis(from: i64) -> i64 {
    loop {
        let now = clock_millis();
        if now > from + 1 {
            return now;
        }
    }
}

#[test]
fn time_travel() {
    let mut record: Record<String, Add> = Record::new(String::new());
    assert!(record.apply(Add('a')).is_ok());
    let a = next_millis(clock_millis());
    let _ = next_millis(a);
    assert!(record.apply(Add('b')).is_ok());
    assert!(record.apply(Add('c')).is_ok());
    assert!(record.time_travel(a).unwrap().is_ok());
    assert_eq!(record.as_receiver(), "a");
    let now = next_millis(clock_millis());
    assert!(record.time_travel(now).unwrap().is_ok());
    assert_eq!(record.as_receiver(), "abc");
}

#[test]
fn time_travel_empty() {
    let mut record: Record<String, Add> = Record::new(String::new());
    assert!(record.time_travel(0).is_none());
}
