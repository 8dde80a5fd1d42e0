//! The ledger's text format: one operation per line, written as four
//! unsigned decimal numbers `from to amount mode` separated by blanks.

use vstd::prelude::*;
use crate::bank::OpKind;
use crate::ledger::{kind_of_mode, LedgerQueue, Operation};

verus! {

/// An ASCII decimal digit.
pub open spec fn is_digit(b: u8) -> bool {
    48 <= b <= 57
}

/// A separator between fields: a space or a tab.
pub open spec fn is_blank(b: u8) -> bool {
    b == 32 || b == 9
}

/// The length of a line once everything after its last digit is dropped.
pub open spec fn stripped_len(line: Seq<u8>) -> nat
    decreases line.len(),
{
    if line.len() == 0 {
        0
    } else if is_digit(line.last()) {
        line.len()
    } else {
        stripped_len(line.drop_last())
    }
}

/// The fields of a text: its maximal runs of bytes that are not blank, in
/// order.
pub open spec fn fields(s: Seq<u8>) -> Seq<Seq<u8>>
    decreases s.len(),
{
    if s.len() == 0 {
        Seq::empty()
    } else {
        let before = fields(s.drop_last());
        if is_blank(s.last()) {
            before
        } else if s.len() >= 2 && !is_blank(s[s.len() - 2]) && before.len() > 0 {
            before.drop_last().push(before.last().push(s.last()))
        } else {
            before.push(seq![s.last()])
        }
    }
}

/// Whether a field holds digits only.
pub open spec fn all_digits(f: Seq<u8>) -> bool
    decreases f.len(),
{
    f.len() == 0 || (all_digits(f.drop_last()) && is_digit(f.last()))
}

/// The number that a field of digits writes in base ten.
pub open spec fn value(f: Seq<u8>) -> nat
    decreases f.len(),
{
    if f.len() == 0 {
        0
    } else {
        value(f.drop_last()) * 10 + (f.last() - 48) as nat
    }
}

/// Whether a field writes a number that fits in `u32`.
pub open spec fn is_number(f: Seq<u8>) -> bool {
    all_digits(f) && value(f) <= u32::MAX
}

/// Whether there are at most four fields and each writes a number.
pub open spec fn good_fields(fs: Seq<Seq<u8>>) -> bool {
    &&& fs.len() <= 4
    &&& forall|k: int| 0 <= k < fs.len() ==> is_number(#[trigger] fs[k])
}

/// The operation that a line encodes, numbered `sequence_id`, or `None`
/// where the line is malformed. Whatever follows the last digit is ignored;
/// the rest must be exactly four numbers, each within `u32`.
pub open spec fn parse_line_spec(line: Seq<u8>, sequence_id: u32) -> Option<Operation> {
    let fs = fields(line.take(stripped_len(line) as int));
    if fs.len() == 4 && good_fields(fs) {
        Some(
            Operation {
                sequence_id,
                kind: kind_of_mode(value(fs[3]) as u32),
                from: value(fs[0]) as u32,
                to: value(fs[1]) as u32,
                amount: value(fs[2]) as u32,
            },
        )
    } else {
        None
    }
}

/// Why a ledger could not be loaded.
#[derive(Clone, Copy, Debug, PartialEq, Eq, Structural)]
pub enum LoadError {
    /// The line with this index, counted from zero, encodes no operation.
    Malformed { line: usize },
}

proof fn lemma_stripped_len_bound(line: Seq<u8>)
    ensures
        stripped_len(line) <= line.len(),
    decreases line.len(),
{
    if line.len() > 0 {
        lemma_stripped_len_bound(line.drop_last());
    }
}

/// Finds where the last digit of a line ends.
fn find_stripped_len(line: &[u8]) -> (end: usize)
    ensures
        end == stripped_len(line@),
{
    let mut end: usize = line.len();
    assert(line@.take(line@.len() as int) =~= line@);
    while end > 0 && !(48 <= line[end - 1] && line[end - 1] <= 57)
        invariant
            end <= line@.len(),
            stripped_len(line@) == stripped_len(line@.take(end as int)),
        decreases end,
    {
        assert(line@.take(end as int).drop_last() =~= line@.take(end - 1));
        end = end - 1;
    }
    end
}

/// How the fields of a prefix grow when the prefix takes one more byte.
proof fn lemma_fields_step(s: Seq<u8>, i: int)
    requires
        0 <= i < s.len(),
    ensures
        is_blank(s[i]) ==> fields(s.take(i + 1)) == fields(s.take(i)),
        !is_blank(s[i]) && i > 0 && !is_blank(s[i - 1]) ==> fields(s.take(i)).len() > 0 && fields(
            s.take(i + 1),
        ) == fields(s.take(i)).drop_last().push(fields(s.take(i)).last().push(s[i])),
        !is_blank(s[i]) && (i == 0 || is_blank(s[i - 1])) ==> fields(s.take(i + 1)) == fields(
            s.take(i),
        ).push(seq![s[i]]),
        !is_blank(s[i]) ==> fields(s.take(i + 1)).len() > 0,
{
    assert(s.take(i + 1).drop_last() =~= s.take(i));
    if i > 0 {
        assert(s.take(i).drop_last() =~= s.take(i - 1));
        assert(s.take(i).last() == s[i - 1]);
    }
}

/// Reads one ledger line. Returns the operation it encodes, numbered
/// `sequence_id`, or `None` where the line is malformed.
pub fn parse_line(line: &[u8], sequence_id: u32) -> (op: Option<Operation>)
    ensures
        op == parse_line_spec(line@, sequence_id),
{
    let end = find_stripped_len(line);
    proof {
        lemma_stripped_len_bound(line@);
    }
    let ghost text = line@.take(end as int);
    let mut vals: Vec<u32> = Vec::new();
    let mut bad = false;
    let mut i: usize = 0;
    while i < end
        invariant
            i <= end <= line@.len(),
            text == line@.take(end as int),
            bad == !good_fields(fields(text.take(i as int))),
            !bad ==> vals@.len() == fields(text.take(i as int)).len(),
            !bad ==> forall|k: int| 0 <= k < vals@.len() ==> vals@[k] == value(#[trigger] fields(text.take(i as int))[k]),
            i > 0 && !is_blank(text[i - 1]) ==> fields(text.take(i as int)).len() > 0,
        decreases end - i,
    {
        let b = line[i];
        let ghost fs = fields(text.take(i as int));
        let ghost fs2 = fields(text.take(i + 1));
        proof {
            assert(text[i as int] == b);
            lemma_fields_step(text, i as int);
        }
        if b == 32 || b == 9 {
        } else if i > 0 && !(line[i - 1] == 32 || line[i - 1] == 9) {
            proof {
                assert(text[i - 1] == line@[i - 1]);
                let last = fs.last();
                assert(last.push(b).drop_last() =~= last);
                assert(fs2.len() == fs.len());
                assert(fs2[fs.len() - 1] == last.push(b));
                assert(forall|k: int| 0 <= k < fs.len() - 1 ==> fs2[k] == fs[k]);
                assert(good_fields(fs2) ==> good_fields(fs)) by {
                    if good_fields(fs2) {
                        assert(is_number(fs2[fs.len() - 1]));
                        assert forall|k: int| 0 <= k < fs.len() implies is_number(#[trigger] fs[k]) by {
                            if k < fs.len() - 1 {
                                assert(is_number(fs2[k]));
                            }
                        }
                    }
                }
            }
            if !bad {
                let n = vals.len();
                let wide: u64 = (vals[n - 1] as u64) * 10 + (if 48 <= b && b <= 57 {
                    (b - 48) as u64
                } else {
                    0
                });
                if 48 <= b && b <= 57 && wide <= 0xffff_ffff {
                    vals[n - 1] = wide as u32;
                    proof {
                        assert forall|k: int| 0 <= k < fs2.len() implies is_number(#[trigger] fs2[k]) by {
                            if k < fs.len() - 1 {
                                assert(is_number(fs[k]));
                            }
                        }
                    }
                } else {
                    bad = true;
                    assert(!is_number(fs2[fs.len() - 1]));
                }
            }
        } else {
            proof {
                assert(seq![b].drop_last() =~= Seq::<u8>::empty());
                assert(seq![b].last() == b);
                assert(fs2.len() == fs.len() + 1);
                assert(fs2[fs.len() as int] == seq![b]);
                assert(forall|k: int| 0 <= k < fs.len() ==> fs2[k] == fs[k]);
                assert(all_digits(seq![b]) == is_digit(b)) by {
                    assert(all_digits(Seq::<u8>::empty()));
                }
                assert(value(seq![b]) == (b - 48) as nat) by {
                    assert(value(Seq::<u8>::empty()) == 0);
                }
                assert(good_fields(fs2) ==> good_fields(fs)) by {
                    if good_fields(fs2) {
                        assert forall|k: int| 0 <= k < fs.len() implies is_number(#[trigger] fs[k]) by {
                            assert(is_number(fs2[k]));
                        }
                    }
                }
            }
            if !bad {
                if 48 <= b && b <= 57 && vals.len() < 4 {
                    vals.push(b as u32 - 48);
                    proof {
                        assert forall|k: int| 0 <= k < fs2.len() implies is_number(#[trigger] fs2[k]) by {
                            if k < fs.len() {
                                assert(is_number(fs[k]));
                            }
                        }
                    }
                } else {
                    bad = true;
                    assert(!good_fields(fs2)) by {
                        if fs2.len() <= 4 {
                            assert(!is_number(fs2[fs.len() as int]));
                        }
                    }
                }
            }
        }
        i = i + 1;
    }
    proof {
        assert(text.take(end as int) =~= text);
    }
    if bad || vals.len() != 4 {
        None
    } else {
        Some(
            Operation {
                sequence_id,
                kind: OpKind::from_mode(vals[3]),
                from: vals[0],
                to: vals[1],
                amount: vals[2],
            },
        )
    }
}

/// Loads a ledger from its lines. Line `i`, counted from zero, becomes the
/// operation with sequence number `i`, so the queue holds the operations in
/// source order. A line that encodes no operation stops the load: the error
/// names the first such line, and nothing is skipped.
pub fn load(lines: &Vec<Vec<u8>>) -> (r: Result<LedgerQueue, LoadError>)
    requires
        lines@.len() <= u32::MAX,
    ensures
        match r {
            Ok(q) => {
                &&& q@.len() == lines@.len()
                &&& forall|i: int|
                    0 <= i < lines@.len() ==> Some(#[trigger] q@[i]) == parse_line_spec(
                        lines@[i]@,
                        i as u32,
                    )
                &&& forall|i: int| 0 <= i < q@.len() ==> (#[trigger] q@[i]).sequence_id == i
            },
            Err(LoadError::Malformed { line }) => {
                &&& line < lines@.len()
                &&& parse_line_spec(lines@[line as int]@, line as u32).is_none()
                &&& forall|i: int|
                    0 <= i < line ==> parse_line_spec((#[trigger] lines@[i])@, i as u32).is_some()
            },
        },
{
    let mut queue = LedgerQueue::new();
    let mut i: usize = 0;
    while i < lines.len()
        invariant
            i <= lines@.len() <= u32::MAX,
            queue@.len() == i,
            forall|k: int|
                0 <= k < i ==> Some(#[trigger] queue@[k]) == parse_line_spec(lines@[k]@, k as u32),
            forall|k: int|
                0 <= k < i ==> parse_line_spec((#[trigger] lines@[k])@, k as u32).is_some(),
        decreases lines@.len() - i,
    {
        match parse_line(lines[i].as_slice(), i as u32) {
            Some(op) => {
                queue.push(op);
            },
            None => {
                return Err(LoadError::Malformed { line: i });
            },
        }
        i = i + 1;
    }
    Ok(queue)
}

} // verus!
