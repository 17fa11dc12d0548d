//! Reading an append-only log of one event per line.

use vstd::prelude::*;

use crate::text;

verus! {

/// One line of a log file, as it was read.
#[derive(Debug, PartialEq, Eq)]
pub enum LogLine<E> {
    /// The line could not be read.
    Unreadable(String),
    /// The text of the line, and the event it parses to or why it does not.
    Text(String, Result<E, String>),
}

/// What one line contributes to a log.
pub enum LineView<V> {
    Blank,
    Event(V),
    Corrupt(Seq<char>),
}

/// Blank lines are skipped; every other line must hold an event.
pub open spec fn line_view<E: View>(line: LogLine<E>) -> LineView<E::V> {
    match line {
        LogLine::Unreadable(why) => LineView::Corrupt(why@),
        LogLine::Text(text, parsed) => if text::trimmed(text@).len() == 0 {
            LineView::Blank
        } else {
            match parsed {
                Ok(event) => LineView::Event(event@),
                Err(why) => LineView::Corrupt(why@),
            }
        },
    }
}

/// The events of a log, in order; or the number (from one) of the first line
/// that is corrupt, and what is wrong with it.
pub open spec fn log_view<E: View>(lines: Seq<LogLine<E>>) -> Result<Seq<E::V>, (int, Seq<char>)>
    decreases lines.len(),
{
    if lines.len() == 0 {
        Ok(Seq::empty())
    } else {
        match log_view(lines.drop_last()) {
            Err(e) => Err(e),
            Ok(events) => match line_view(lines.last()) {
                LineView::Blank => Ok(events),
                LineView::Event(event) => Ok(events.push(event)),
                LineView::Corrupt(why) => Err((lines.len() as int, why)),
            },
        }
    }
}

/// A log is corrupt as soon as a part from its beginning is.
proof fn corrupt_prefix<E: View>(lines: Seq<LogLine<E>>, n: int)
    requires
        0 <= n <= lines.len(),
        log_view(lines.take(n)) is Err,
    ensures
        log_view(lines) == log_view(lines.take(n)),
    decreases lines.len(),
{
    if n < lines.len() {
        assert(lines.drop_last().take(n) == lines.take(n));
        corrupt_prefix(lines.drop_last(), n);
    } else {
        assert(lines.take(n) == lines);
    }
}

/// The models of a list of values.
pub open spec fn views<E: View>(v: Seq<E>) -> Seq<E::V> {
    v.map_values(|e: E| e@)
}

/// The events of a log, in order; or the first corrupt line.
pub fn read_log<E: View>(lines: Vec<LogLine<E>>) -> (r: Result<Vec<E>, (usize, String)>)
    ensures
        match r {
            Ok(events) => log_view(lines@) == Ok::<Seq<E::V>, (int, Seq<char>)>(views(events@)),
            Err((n, why)) => log_view(lines@) == Err::<Seq<E::V>, (int, Seq<char>)>(
                (n as int, why@),
            ),
        },
{
    let ghost all = lines@;
    let mut events: Vec<E> = Vec::new();
    let mut number: usize = 0;
    let total = lines.len();
    assert(all.take(0) == Seq::<LogLine<E>>::empty());
    assert(views(events@) == Seq::<E::V>::empty());
    for line in it: lines
        invariant
            it.seq() == all,
            all.len() == total,
            number == it.index(),
            log_view(all.take(number as int)) == Ok::<Seq<E::V>, (int, Seq<char>)>(views(events@)),
    {
        let ghost before = events@;
        proof {
            assert(all.take(number + 1).drop_last() == all.take(number as int));
            assert(all.take(number + 1).last() == line);
        }
        number += 1;
        match line {
            LogLine::Unreadable(why) => {
                proof {
                    corrupt_prefix(all, number as int);
                }
                return Err((number, why));
            },
            LogLine::Text(content, parsed) => {
                if !text::trim(content.as_str()).is_empty() {
                    match parsed {
                        Ok(event) => {
                            events.push(event);
                            assert(views(events@) == views(before).push(event@));
                        },
                        Err(why) => {
                            proof {
                                corrupt_prefix(all, number as int);
                            }
                            return Err((number, why));
                        },
                    }
                }
            },
        }
    }
    assert(all.take(number as int) == all);
    Ok(events)
}

/// A log of one line holds the event of that line, or nothing if the line is
/// blank; a line that cannot be read, or holds no event, is refused as the
/// first.
pub proof fn one_line_is_read<E: View>(line: LogLine<E>)
    ensures
        ({
            let r = log_view(seq![line]);
            match line {
                LogLine::Unreadable(why) => r == Err::<Seq<E::V>, (int, Seq<char>)>((1, why@)),
                LogLine::Text(text, parsed) => {
                    let blank = forall|i: int|
                        0 <= i < text@.len() ==> text::is_white_space(#[trigger] text@[i]);
                    &&& blank ==> r == Ok::<Seq<E::V>, (int, Seq<char>)>(Seq::empty())
                    &&& !blank ==> r == match parsed {
                        Ok(event) => Ok::<Seq<E::V>, (int, Seq<char>)>(seq![event@]),
                        Err(why) => Err((1, why@)),
                    }
                },
            }
        }),
{
    reveal_with_fuel(log_view, 2);
    let all = seq![line];
    assert(all.drop_last() == Seq::<LogLine<E>>::empty());
    assert(all.last() == line);
    if let LogLine::Text(text, parsed) = line {
        let s = text@;
        if forall|i: int| 0 <= i < s.len() ==> text::is_white_space(#[trigger] s[i]) {
            let none = Seq::<char>::empty();
            text::white_space_comes_off(s, none, none);
            assert(s + none + none == s);
        } else {
            text::something_stays(s);
        }
        assert(Seq::<E::V>::empty().push(parsed->Ok_0@) == seq![parsed->Ok_0@]);
    }
}

/// A log is read line by line: the events of two parts come one after the
/// other, and the first line that is refused is the first of the whole.
pub proof fn logs_are_read_in_order<E: View>(a: Seq<LogLine<E>>, b: Seq<LogLine<E>>)
    ensures
        log_view(a + b) == match (log_view(a), log_view(b)) {
            (Err(e), _) => Err::<Seq<E::V>, (int, Seq<char>)>(e),
            (Ok(x), Ok(y)) => Ok(x + y),
            (Ok(_), Err((n, why))) => Err((a.len() + n, why)),
        },
    decreases b.len(),
{
    let all = a + b;
    if b.len() > 0 {
        assert(all.drop_last() == a + b.drop_last());
        assert(all.last() == b.last());
        logs_are_read_in_order(a, b.drop_last());
        if let (Ok(x), Ok(y)) = (log_view(a), log_view(b.drop_last())) {
            if let LineView::Event(event) = line_view(b.last()) {
                assert((x + y).push(event) == x + y.push(event));
            }
        }
    } else {
        assert(all == a);
        if let Ok(x) = log_view(a) {
            assert(x + Seq::<E::V>::empty() == x);
        }
    }
}

} // verus!
