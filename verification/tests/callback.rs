use fractal_wire::callback::ClojureTcpStream;
use std::cell::RefCell;
use std::rc::Rc;

#[test]
fn callback_runs_when_there_is_data() {
    let seen: Rc<RefCell<Vec<(u32, Option<Vec<u8>>)>>> = Rc::new(RefCell::new(Vec::new()));
    let sink = Rc::clone(&seen);
    let stream = ClojureTcpStream::new(move |diamond: u32, data: Option<Vec<u8>>| {
        sink.borrow_mut().push((diamond, data));
    });
    stream.call(1, Some(vec![1, 2, 3]));
    stream.call(2, None);
    stream.call(3, Some(Vec::new()));
    assert_eq!(*seen.borrow(), vec![(1, Some(vec![1, 2, 3])), (3, Some(Vec::new()))]);
}

#[test]
fn callback_is_not_run_without_data() {
    let calls = Rc::new(RefCell::new(0u32));
    let counter = Rc::clone(&calls);
    let stream = ClojureTcpStream::new(move |_: &str, _: Option<Vec<u8>>| {
        *counter.borrow_mut() += 1;
    });
    stream.call("a", None);
    stream.call("b", None);
    assert_eq!(*calls.borrow(), 0);
    stream.call("c", Some(vec![0]));
    assert_eq!(*calls.borrow(), 1);
}
