use async_zip_longest::{EitherOrBoth, Polled, ZipLongest};

/// A source that gives its scripted answers in order, then reports its end on
/// every later poll.
struct Scripted<T> {
    answers: Vec<Polled<T>>,
    next: usize,
    polls: usize,
}

impl<T: Copy> Scripted<T> {
    fn new(answers: Vec<Polled<T>>) -> Self {
        Scripted { answers, next: 0, polls: 0 }
    }

    fn ready(items: &[T]) -> Self {
        Scripted::new(items.iter().map(|&x| Polled::Item(x)).collect())
    }

    fn poll(&mut self) -> Polled<T> {
        self.polls += 1;
        if self.next < self.answers.len() {
            self.next += 1;
            self.answers[self.next - 1]
        } else {
            Polled::Done
        }
    }
}

fn cycle<L: Copy, R: Copy>(
    z: &mut ZipLongest<L, R>,
    l: &mut Scripted<L>,
    r: &mut Scripted<R>,
) -> Polled<EitherOrBoth<L, R>> {
    let left = if z.polls_left() { Some(l.poll()) } else { None };
    let right = if z.polls_right() { Some(r.poll()) } else { None };
    z.poll_next(left, right)
}

/// Runs the merge to completion; returns the results and the count of
/// cycles that yielded nothing.
fn drive<L: Copy, R: Copy>(
    mut l: Scripted<L>,
    mut r: Scripted<R>,
) -> (Vec<EitherOrBoth<L, R>>, usize) {
    let mut z = ZipLongest::new();
    let mut out = Vec::new();
    let mut pending = 0;
    for _ in 0..1000 {
        match cycle(&mut z, &mut l, &mut r) {
            Polled::Item(e) => out.push(e),
            Polled::Pending => pending += 1,
            Polled::Done => return (out, pending),
        }
    }
    panic!("the merge did not complete");
}

fn zip_ready(l: &[i32], r: &[i32]) -> Vec<EitherOrBoth<i32, i32>> {
    drive(Scripted::ready(l), Scripted::ready(r)).0
}

#[test]
fn left_longer() {
    assert!(zip_ready(&[1, 2, 3], &[1, 2]).into_iter().eq([
        EitherOrBoth::Both(1, 1),
        EitherOrBoth::Both(2, 2),
        EitherOrBoth::Left(3),
    ]));
}

#[test]
fn equal_length() {
    assert!(zip_ready(&[1, 2, 3], &[1, 2, 3]).into_iter().eq([
        EitherOrBoth::Both(1, 1),
        EitherOrBoth::Both(2, 2),
        EitherOrBoth::Both(3, 3),
    ]));
}

#[test]
fn right_longer() {
    assert!(zip_ready(&[1, 2], &[1, 2, 3]).into_iter().eq([
        EitherOrBoth::Both(1, 1),
        EitherOrBoth::Both(2, 2),
        EitherOrBoth::Right(3),
    ]));
}

#[test]
fn left_empty_right_one() {
    assert_eq!(zip_ready(&[], &[7]), vec![EitherOrBoth::Right(7)]);
}

#[test]
fn both_empty_completes_at_once() {
    let (out, pending) = drive::<i32, i32>(Scripted::ready(&[]), Scripted::ready(&[]));
    assert!(out.is_empty());
    assert_eq!(pending, 0);
}

#[test]
fn right_stalls_one_cycle() {
    let l = Scripted::ready(&[1]);
    let r = Scripted::new(vec![Polled::Pending, Polled::Item(1)]);
    let (out, pending) = drive(l, r);
    assert_eq!(out, vec![EitherOrBoth::Both(1, 1)]);
    assert_eq!(pending, 1);
}

#[test]
fn left_stalls_one_cycle() {
    let l = Scripted::new(vec![Polled::Pending, Polled::Item(5)]);
    let r = Scripted::ready(&[6]);
    let (out, pending) = drive(l, r);
    assert_eq!(out, vec![EitherOrBoth::Both(5, 6)]);
    assert_eq!(pending, 1);
}

#[test]
fn length_is_the_longer_side() {
    for (m, n) in [(0, 0), (0, 4), (4, 0), (2, 5), (5, 2), (3, 3)] {
        let l: Vec<i32> = (0..m).collect();
        let r: Vec<i32> = (10..10 + n).collect();
        assert_eq!(zip_ready(&l, &r).len(), m.max(n) as usize);
    }
}

#[test]
fn no_loss_with_stalls() {
    let l = Scripted::new(vec![
        Polled::Item(1),
        Polled::Pending,
        Polled::Item(2),
        Polled::Item(3),
        Polled::Pending,
        Polled::Item(4),
    ]);
    let r = Scripted::new(vec![
        Polled::Pending,
        Polled::Pending,
        Polled::Item(10),
        Polled::Item(20),
        Polled::Pending,
    ]);
    let (out, _) = drive(l, r);
    let lefts: Vec<i32> = out
        .iter()
        .filter_map(|e| match *e {
            EitherOrBoth::Both(a, _) | EitherOrBoth::Left(a) => Some(a),
            EitherOrBoth::Right(_) => None,
        })
        .collect();
    let rights: Vec<i32> = out
        .iter()
        .filter_map(|e| match *e {
            EitherOrBoth::Both(_, b) | EitherOrBoth::Right(b) => Some(b),
            EitherOrBoth::Left(_) => None,
        })
        .collect();
    assert_eq!(lefts, vec![1, 2, 3, 4]);
    assert_eq!(rights, vec![10, 20]);
    assert_eq!(
        out,
        vec![
            EitherOrBoth::Both(1, 10),
            EitherOrBoth::Both(2, 20),
            EitherOrBoth::Left(3),
            EitherOrBoth::Left(4),
        ]
    );
}

#[test]
fn done_stays_done() {
    let mut z = ZipLongest::<i32, i32>::new();
    let mut l = Scripted::ready(&[]);
    let mut r = Scripted::ready(&[]);
    assert_eq!(cycle(&mut z, &mut l, &mut r), Polled::Done);
    assert_eq!(cycle(&mut z, &mut l, &mut r), Polled::Done);
    assert_eq!(cycle(&mut z, &mut l, &mut r), Polled::Done);
}

#[test]
fn buffered_side_is_not_polled() {
    let mut z = ZipLongest::<i32, i32>::new();
    assert!(z.polls_left() && z.polls_right());
    assert_eq!(z.poll_next(Some(Polled::Item(1)), Some(Polled::Pending)), Polled::Pending);
    assert!(!z.polls_left());
    assert!(z.polls_right());
    assert_eq!(z.poll_next(None, Some(Polled::Pending)), Polled::Pending);
    assert!(!z.polls_left());
    assert_eq!(
        z.poll_next(None, Some(Polled::Item(2))),
        Polled::Item(EitherOrBoth::Both(1, 2))
    );
    assert!(z.polls_left() && z.polls_right());
}

#[test]
fn buffered_right_then_left_ends() {
    let mut z = ZipLongest::<i32, i32>::new();
    assert_eq!(z.poll_next(Some(Polled::Pending), Some(Polled::Item(9))), Polled::Pending);
    assert!(z.polls_left());
    assert!(!z.polls_right());
    assert_eq!(z.poll_next(Some(Polled::Done), None), Polled::Item(EitherOrBoth::Right(9)));
}

#[test]
fn buffered_left_then_right_ends() {
    let mut z = ZipLongest::<i32, i32>::new();
    assert_eq!(z.poll_next(Some(Polled::Item(4)), Some(Polled::Pending)), Polled::Pending);
    assert_eq!(z.poll_next(None, Some(Polled::Done)), Polled::Item(EitherOrBoth::Left(4)));
}

#[test]
fn each_side_polled_once_per_cycle() {
    let mut z = ZipLongest::<i32, i32>::new();
    let mut l = Scripted::ready(&[1, 2]);
    let mut r = Scripted::new(vec![Polled::Pending, Polled::Item(1), Polled::Item(2)]);
    assert_eq!(cycle(&mut z, &mut l, &mut r), Polled::Pending);
    assert_eq!((l.polls, r.polls), (1, 1));
    assert_eq!(cycle(&mut z, &mut l, &mut r), Polled::Item(EitherOrBoth::Both(1, 1)));
    assert_eq!((l.polls, r.polls), (1, 2));
    assert_eq!(cycle(&mut z, &mut l, &mut r), Polled::Item(EitherOrBoth::Both(2, 2)));
    assert_eq!((l.polls, r.polls), (2, 3));
}
