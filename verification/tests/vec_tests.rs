use heapless::FixedVec;
use std::cell::Cell;
use std::rc::Rc;

struct Droppable {
    count: Rc<Cell<i32>>,
}

impl Droppable {
    fn new(count: &Rc<Cell<i32>>) -> Self {
        count.set(count.get() + 1);
        Droppable { count: count.clone() }
    }
}

impl Drop for Droppable {
    fn drop(&mut self) {
        self.count.set(self.count.get() - 1);
    }
}

#[test]
fn static_new() {
    let _v: FixedVec<i32, 4> = FixedVec::new();
}

#[test]
fn vec_drop() {
    let count: Rc<Cell<i32>> = Rc::new(Cell::new(0));

    {
        let mut v: FixedVec<Droppable, 2> = FixedVec::new();
        v.push(Droppable::new(&count)).ok().unwrap();
        v.push(Droppable::new(&count)).ok().unwrap();
        v.pop().unwrap();
    }

    assert_eq!(count.get(), 0);

    {
        let mut v: FixedVec<Droppable, 2> = FixedVec::new();
        v.push(Droppable::new(&count)).ok().unwrap();
        v.push(Droppable::new(&count)).ok().unwrap();
    }

    assert_eq!(count.get(), 0);
}

#[test]
fn eq() {
    let mut xs: FixedVec<i32, 4> = FixedVec::new();
    let mut ys: FixedVec<i32, 8> = FixedVec::new();

    assert_eq!(xs.as_slice(), ys.as_slice());

    xs.push(1).unwrap();
    ys.push(1).unwrap();

    assert_eq!(xs.as_slice(), ys.as_slice());
}

#[test]
fn vec_full() {
    let mut v: FixedVec<i32, 4> = FixedVec::new();

    v.push(0).unwrap();
    v.push(1).unwrap();
    v.push(2).unwrap();
    v.push(3).unwrap();

    assert!(v.push(4).is_err());
}

#[test]
fn vec_iter() {
    let mut v: FixedVec<i32, 4> = FixedVec::new();

    v.push(0).unwrap();
    v.push(1).unwrap();
    v.push(2).unwrap();
    v.push(3).unwrap();

    let mut items = v.iter();

    assert_eq!(items.next(), Some(&0));
    assert_eq!(items.next(), Some(&1));
    assert_eq!(items.next(), Some(&2));
    assert_eq!(items.next(), Some(&3));
    assert_eq!(items.next(), None);
}

#[test]
fn iter_move() {
    let mut v: FixedVec<i32, 4> = FixedVec::new();
    v.push(0).unwrap();
    v.push(1).unwrap();
    v.push(2).unwrap();
    v.push(3).unwrap();

    let mut items = v.into_iter();

    assert_eq!(items.next(), Some(0));
    assert_eq!(items.next(), Some(1));
    assert_eq!(items.next(), Some(2));
    assert_eq!(items.next(), Some(3));
    assert_eq!(items.next(), None);
}

#[test]
fn iter_move_drop() {
    let count: Rc<Cell<i32>> = Rc::new(Cell::new(0));

    {
        let mut vec: FixedVec<Droppable, 2> = FixedVec::new();
        vec.push(Droppable::new(&count)).ok().unwrap();
        vec.push(Droppable::new(&count)).ok().unwrap();
        let mut items = vec.into_iter();
        // Move all
        let _ = items.next();
        let _ = items.next();
    }

    assert_eq!(count.get(), 0);

    {
        let mut vec: FixedVec<Droppable, 2> = FixedVec::new();
        vec.push(Droppable::new(&count)).ok().unwrap();
        vec.push(Droppable::new(&count)).ok().unwrap();
        let _items = vec.into_iter();
        // Move none
    }

    assert_eq!(count.get(), 0);

    {
        let mut vec: FixedVec<Droppable, 2> = FixedVec::new();
        vec.push(Droppable::new(&count)).ok().unwrap();
        vec.push(Droppable::new(&count)).ok().unwrap();
        let mut items = vec.into_iter();
        let _ = items.next(); // Move partly
    }

    assert_eq!(count.get(), 0);
}

#[test]
fn push_and_pop() {
    let mut v: FixedVec<i32, 4> = FixedVec::new();
    assert_eq!(v.len(), 0);

    assert_eq!(v.pop(), None);
    assert_eq!(v.len(), 0);

    v.push(0).unwrap();
    assert_eq!(v.len(), 1);

    assert_eq!(v.pop(), Some(0));
    assert_eq!(v.len(), 0);

    assert_eq!(v.pop(), None);
    assert_eq!(v.len(), 0);
}

#[test]
fn resize_size_limit() {
    let mut v: FixedVec<u8, 4> = FixedVec::new();

    v.resize(0, 0).unwrap();
    v.resize(4, 0).unwrap();
    v.resize(5, 0).err().expect("full");
}

#[test]
fn resize_length_cases() {
    let mut v: FixedVec<u8, 4> = FixedVec::new();

    assert_eq!(v.len(), 0);

    // Grow by 1
    v.resize(1, 0).unwrap();
    assert_eq!(v.len(), 1);

    // Grow by 2
    v.resize(3, 0).unwrap();
    assert_eq!(v.len(), 3);

    // Resize to current size
    v.resize(3, 0).unwrap();
    assert_eq!(v.len(), 3);

    // Shrink by 1
    v.resize(2, 0).unwrap();
    assert_eq!(v.len(), 2);

    // Shrink by 2
    v.resize(0, 0).unwrap();
    assert_eq!(v.len(), 0);
}

#[test]
fn resize_contents() {
    let mut v: FixedVec<u8, 4> = FixedVec::new();

    // New entries take supplied value when growing
    v.resize(1, 17).unwrap();
    assert_eq!(v.as_slice()[0], 17);

    // Old values aren't changed when growing
    v.resize(2, 18).unwrap();
    assert_eq!(v.as_slice()[0], 17);
    assert_eq!(v.as_slice()[1], 18);

    // Old values aren't changed when length unchanged
    v.resize(2, 0).unwrap();
    assert_eq!(v.as_slice()[0], 17);
    assert_eq!(v.as_slice()[1], 18);

    // Old values aren't changed when shrinking
    v.resize(1, 0).unwrap();
    assert_eq!(v.as_slice()[0], 17);
}

#[test]
fn resize_default() {
    let mut v: FixedVec<u8, 4> = FixedVec::new();

    // resize_default is implemented using resize, so just check the
    // correct value is being written.
    v.resize_default(1).unwrap();
    assert_eq!(v.as_slice()[0], 0);
}

#[test]
fn extend_from_slice() {
    let mut v: FixedVec<u8, 4> = FixedVec::new();
    assert_eq!(v.len(), 0);
    v.extend_from_slice(&[1, 2]).unwrap();
    assert_eq!(v.len(), 2);
    assert_eq!(v.as_slice(), &[1, 2]);
    v.extend_from_slice(&[3]).unwrap();
    assert_eq!(v.len(), 3);
    assert_eq!(v.as_slice(), &[1, 2, 3]);
    assert!(v.extend_from_slice(&[4, 5]).is_err());
    assert_eq!(v.len(), 3);
    assert_eq!(v.as_slice(), &[1, 2, 3]);
}

#[test]
fn from_slice() {
    // Successful construction
    let v: FixedVec<u8, 4> = FixedVec::from_slice(&[1, 2, 3]).unwrap();
    assert_eq!(v.len(), 3);
    assert_eq!(v.as_slice(), &[1, 2, 3]);

    // Slice too large
    assert!(FixedVec::<u8, 2>::from_slice(&[1, 2, 3]).is_err());
}

#[test]
fn starts_with() {
    let v: FixedVec<u8, 8> = FixedVec::from_slice(b"ab").unwrap();
    assert!(v.starts_with(&[]));
    assert!(v.starts_with(b""));
    assert!(v.starts_with(b"a"));
    assert!(v.starts_with(b"ab"));
    assert!(!v.starts_with(b"abc"));
    assert!(!v.starts_with(b"ba"));
    assert!(!v.starts_with(b"b"));
}

#[test]
fn ends_with() {
    let v: FixedVec<u8, 8> = FixedVec::from_slice(b"ab").unwrap();
    assert!(v.ends_with(&[]));
    assert!(v.ends_with(b""));
    assert!(v.ends_with(b"b"));
    assert!(v.ends_with(b"ab"));
    assert!(!v.ends_with(b"abc"));
    assert!(!v.ends_with(b"ba"));
    assert!(!v.ends_with(b"a"));
}

#[test]
fn stack_order_scenario() {
    let mut v: FixedVec<i32, 4> = FixedVec::new();

    assert_eq!(v.push(0), Ok(()));
    assert_eq!(v.push(1), Ok(()));
    assert_eq!(v.push(2), Ok(()));
    assert_eq!(v.push(3), Ok(()));
    assert_eq!(v.push(4), Err(4));

    assert_eq!(v.pop(), Some(3));
    assert_eq!(v.pop(), Some(2));
    assert_eq!(v.pop(), Some(1));
    assert_eq!(v.pop(), Some(0));
    assert_eq!(v.pop(), None);
}

#[test]
fn len_never_exceeds_capacity() {
    let mut v: FixedVec<i32, 3> = FixedVec::new();
    for i in 0..10 {
        let _ = v.push(i);
        assert!(v.len() <= v.capacity());
    }
    assert_eq!(v.len(), 3);
    assert_eq!(v.capacity(), 3);
}

#[test]
fn push_full_returns_value() {
    let mut v: FixedVec<String, 1> = FixedVec::new();
    v.push(String::from("kept")).unwrap();
    let rejected = v.push(String::from("rejected"));
    assert_eq!(rejected, Err(String::from("rejected")));
    assert_eq!(v.len(), 1);
    assert_eq!(v.as_slice()[0], "kept");
}

#[test]
fn insert_remove_round_trip() {
    let mut v: FixedVec<i32, 8> = FixedVec::new();
    v.push(10).unwrap();
    v.push(30).unwrap();
    v.push(40).unwrap();

    v.insert(1, 20).unwrap();
    assert_eq!(v.as_slice(), &[10, 20, 30, 40]);

    assert_eq!(v.remove(1), Ok(20));
    assert_eq!(v.as_slice(), &[10, 30, 40]);
    assert_eq!(v.len(), 3);
}

#[test]
fn insert_rejects_full_and_out_of_bounds() {
    let mut v: FixedVec<i32, 2> = FixedVec::new();
    v.push(1).unwrap();

    // index past the end hands the value back
    assert_eq!(v.insert(2, 9), Err(9));
    assert_eq!(v.as_slice(), &[1]);

    v.push(2).unwrap();
    // full vector hands the value back
    assert_eq!(v.insert(0, 9), Err(9));
    assert_eq!(v.as_slice(), &[1, 2]);
}

#[test]
fn remove_out_of_bounds() {
    let mut v: FixedVec<i32, 2> = FixedVec::new();
    v.push(1).unwrap();
    assert_eq!(v.remove(1), Err(()));
    assert_eq!(v.as_slice(), &[1]);
}

#[test]
fn swap_remove() {
    let mut v: FixedVec<&str, 8> = FixedVec::new();
    v.push("foo").unwrap();
    v.push("bar").unwrap();
    v.push("baz").unwrap();
    v.push("qux").unwrap();

    assert_eq!(v.swap_remove(1), "bar");
    assert_eq!(v.as_slice(), &["foo", "qux", "baz"]);

    assert_eq!(v.swap_remove(0), "foo");
    assert_eq!(v.as_slice(), &["baz", "qux"]);
}

#[test]
fn truncate_and_clear() {
    let mut v: FixedVec<i32, 4> = FixedVec::new();
    v.extend_from_slice(&[1, 2, 3, 4]).unwrap();

    v.truncate(6);
    assert_eq!(v.as_slice(), &[1, 2, 3, 4]);

    v.truncate(2);
    assert_eq!(v.as_slice(), &[1, 2]);

    v.clear();
    assert!(v.is_empty());
    assert_eq!(v.len(), 0);
}

#[test]
fn truncate_drops_exactly_the_tail() {
    let count: Rc<Cell<i32>> = Rc::new(Cell::new(0));
    let mut v: FixedVec<Droppable, 4> = FixedVec::new();
    v.push(Droppable::new(&count)).ok().unwrap();
    v.push(Droppable::new(&count)).ok().unwrap();
    v.push(Droppable::new(&count)).ok().unwrap();
    assert_eq!(count.get(), 3);

    v.truncate(1);
    assert_eq!(count.get(), 1);

    drop(v);
    assert_eq!(count.get(), 0);
}

#[test]
fn insert_slice_at() {
    let mut v: FixedVec<u8, 8> = FixedVec::new();
    v.extend_from_slice(&[1, 2, 5, 6]).unwrap();

    v.insert_slice_at(&[3, 4], 2).unwrap();
    assert_eq!(v.as_slice(), &[1, 2, 3, 4, 5, 6]);

    // no room: nothing changes
    assert!(v.insert_slice_at(&[7, 8, 9], 0).is_err());
    assert_eq!(v.as_slice(), &[1, 2, 3, 4, 5, 6]);
}

#[test]
fn to_vec_and_try_to_vec() {
    let v: FixedVec<u8, 4> = FixedVec::from_slice(&[1, 2, 3]).unwrap();

    let w: FixedVec<u8, 8> = v.to_vec();
    assert_eq!(w.as_slice(), &[1, 2, 3]);
    assert_eq!(w.capacity(), 8);

    let x: Result<FixedVec<u8, 3>, ()> = v.try_to_vec();
    assert_eq!(x.unwrap().as_slice(), &[1, 2, 3]);

    let y: Result<FixedVec<u8, 2>, ()> = v.try_to_vec();
    assert!(y.is_err());
}

#[test]
fn clone_and_default() {
    let v: FixedVec<u8, 4> = FixedVec::from_slice(&[1, 2]).unwrap();
    let w = v.clone();
    assert_eq!(w.as_slice(), &[1, 2]);
    assert_eq!(v.as_slice(), &[1, 2]);

    let d: FixedVec<u8, 4> = Default::default();
    assert!(d.is_empty());
}

#[test]
fn as_mut_slice_writes_through() {
    let mut v: FixedVec<u8, 4> = FixedVec::from_slice(&[1, 2]).unwrap();
    v.as_mut_slice()[0] = 7;
    assert_eq!(v.as_slice(), &[7, 2]);
}

#[test]
fn is_full_flag() {
    let mut v: FixedVec<u8, 2> = FixedVec::new();
    assert!(!v.is_full());
    v.push(1).unwrap();
    assert!(!v.is_full());
    v.push(2).unwrap();
    assert!(v.is_full());
}
