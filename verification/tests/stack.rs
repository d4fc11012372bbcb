use redo::stack::{RedoCmd, RedoStack};
use std::cell::RefCell;
use std::rc::Rc;

#[derive(Clone)]
struct PopCmd {
    vec: Rc<RefCell<Vec<i32>>>,
    e: Option<i32>,
}

impl RedoCmd for PopCmd {
    type Err = ();

    fn redo(&mut self) -> Result<(), Self::Err> {
        self.e = self.vec.borrow_mut().pop();
        Ok(())
    }

    fn undo(&mut self) -> Result<(), Self::Err> {
        let e = self.e.ok_or(())?;
        self.vec.borrow_mut().push(e);
        Ok(())
    }

    fn merge(&mut self, _cmd: &Self) -> Option<Result<(), Self::Err>> {
        None
    }
}

#[test]
fn state() {
    let vec = Rc::new(RefCell::new(vec![1, 2, 3]));
    let mut stack = RedoStack::new();
    stack.on_clean();
    stack.on_dirty();

    let cmd = PopCmd { vec: Rc::clone(&vec), e: None };
    for _ in 0..3 {
        stack.push(cmd.clone()).unwrap();
    }
    // No transition yet: pushes on a clean stack stay clean.
    assert_eq!(stack.take_events(), Vec::<bool>::new());
    assert!(vec.borrow().is_empty());

    for _ in 0..3 {
        stack.undo().unwrap();
    }
    // One transition, clean to dirty, on the first undo.
    assert_eq!(stack.take_events(), vec![false]);
    assert_eq!(*vec.borrow(), vec![1, 2, 3]);

    stack.push(cmd.clone()).unwrap();
    assert_eq!(stack.take_events(), vec![true]);
    assert_eq!(*vec.borrow(), vec![1, 2]);

    stack.undo().unwrap();
    assert_eq!(stack.take_events(), vec![false]);
    assert_eq!(*vec.borrow(), vec![1, 2, 3]);

    stack.redo().unwrap();
    assert_eq!(stack.take_events(), vec![true]);
    assert_eq!(*vec.borrow(), vec![1, 2]);
}

#[test]
fn limit() {
    let vec = Rc::new(RefCell::new(vec![1, 2, 3, 4, 5, 6, 7, 8, 9, 10]));
    let mut stack = RedoStack::with_limit(9);

    let cmd = PopCmd { vec: Rc::clone(&vec), e: None };
    for _ in 0..10 {
        stack.push(cmd.clone()).unwrap();
    }

    assert!(vec.borrow().is_empty());
    assert_eq!(stack.len(), 7);
}

#[test]
fn clean_and_dirty() {
    let vec = Rc::new(RefCell::new(vec![1, 2]));
    let mut stack = RedoStack::with_capacity(4);
    let cmd = PopCmd { vec: Rc::clone(&vec), e: None };

    assert!(stack.is_clean());
    assert!(!stack.is_dirty());
    stack.push(cmd.clone()).unwrap();
    assert!(stack.is_clean());
    stack.undo().unwrap();
    assert!(stack.is_dirty());
    stack.redo().unwrap();
    assert!(stack.is_clean());
    assert_eq!(stack.limit(), None);
    assert!(stack.capacity() >= stack.len());
    stack.reserve(8);
    stack.shrink_to_fit();
    assert_eq!(stack.len(), 1);
}

#[test]
fn push_truncates_undone() {
    let vec = Rc::new(RefCell::new(vec![1, 2, 3]));
    let mut stack = RedoStack::new();
    let cmd = PopCmd { vec: Rc::clone(&vec), e: None };
    stack.push(cmd.clone()).unwrap();
    stack.push(cmd.clone()).unwrap();
    stack.undo().unwrap();
    assert_eq!(stack.len(), 2);
    // Pushing while dirty pops off the undone command.
    stack.push(cmd.clone()).unwrap();
    assert_eq!(stack.len(), 2);
    assert!(stack.is_clean());
    assert_eq!(*vec.borrow(), vec![1]);
}
