use fallible::record::Info;
use fallible::sink::{propagate_error, question_mark_operator};
use std::cell::{Cell, RefCell};

fn john() -> Info {
    Info { name: String::from("john"), age: 34, rating: 5 }
}

#[test]
fn propagate_error_writes_the_message() {
    let written: RefCell<Vec<u8>> = RefCell::new(Vec::new());
    let out: Result<(), String> = propagate_error(|bytes: &[u8]| {
        written.borrow_mut().extend_from_slice(bytes);
        Ok(())
    });
    assert_eq!(out, Ok(()));
    assert_eq!(written.into_inner(), b"some message".to_vec());
}

#[test]
fn propagate_error_passes_the_failure_on() {
    let out: Result<(), &str> = propagate_error(|_: &[u8]| Err("disk full"));
    assert_eq!(out, Err("disk full"));
}

#[test]
fn question_mark_operator_writes_three_lines_in_order() {
    let written: RefCell<Vec<u8>> = RefCell::new(Vec::new());
    let calls = Cell::new(0);
    let out: Result<(), String> = question_mark_operator(&john(), |bytes: &[u8]| {
        calls.set(calls.get() + 1);
        written.borrow_mut().extend_from_slice(bytes);
        Ok(())
    });
    assert_eq!(out, Ok(()));
    assert_eq!(calls.get(), 3);
    assert_eq!(written.into_inner(), b"name: john\nage: 34\nrating: 5\n".to_vec());
}

#[test]
fn question_mark_operator_stops_at_the_first_failure() {
    let written: RefCell<Vec<u8>> = RefCell::new(Vec::new());
    let calls = Cell::new(0);
    let out: Result<(), String> = question_mark_operator(&john(), |bytes: &[u8]| {
        calls.set(calls.get() + 1);
        if calls.get() == 2 {
            return Err(format!("write {} failed", calls.get()));
        }
        written.borrow_mut().extend_from_slice(bytes);
        Ok(())
    });
    assert_eq!(out, Err(String::from("write 2 failed")));
    assert_eq!(calls.get(), 2);
    assert_eq!(written.into_inner(), b"name: john\n".to_vec());
}

#[test]
fn question_mark_operator_fails_on_the_first_line() {
    let calls = Cell::new(0);
    let out: Result<(), i32> = question_mark_operator(&john(), |_: &[u8]| {
        calls.set(calls.get() + 1);
        Err(calls.get())
    });
    assert_eq!(out, Err(1));
    assert_eq!(calls.get(), 1);
}

#[test]
fn question_mark_operator_fails_on_the_last_line() {
    let calls = Cell::new(0);
    let out: Result<(), i32> = question_mark_operator(&john(), |_: &[u8]| {
        calls.set(calls.get() + 1);
        if calls.get() == 3 {
            Err(3)
        } else {
            Ok(())
        }
    });
    assert_eq!(out, Err(3));
    assert_eq!(calls.get(), 3);
}
